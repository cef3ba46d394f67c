use sol_tx_aggregator::application::polling::{advance_last_processed_slot, legacy_step, start, step, PollAction, PollEvent, PollState};
use sol_tx_aggregator::domain::errors::{AggregatorError, BcClientError};

fn last(state: &PollState) -> Option<u64> {
    match state {
        PollState::FetchingSlot { last_processed_slot }
        | PollState::FetchingBlocks { last_processed_slot }
        | PollState::ProcessingBlocks { last_processed_slot }
        | PollState::Sleeping { last_processed_slot } => Some(*last_processed_slot),
        _ => None,
    }
}

#[test]
fn loop_starts_by_reading_the_slot() {
    let (state, action) = start();
    assert!(matches!(state, PollState::Starting));
    assert!(matches!(action, PollAction::GetCurrentSlot));
}

#[test]
fn first_reading_failure_ends_the_loop_with_the_error() {
    let (state, action) = step(
        PollState::Starting,
        PollEvent::CurrentSlot(Err(BcClientError::FailedToGetCurrentSlot("down".to_string()))),
    );
    assert!(matches!(state, PollState::Stopped));
    match action {
        PollAction::Finish(Err(AggregatorError::FailedBcClient(BcClientError::FailedToGetCurrentSlot(m)))) => {
            assert_eq!(m, "down")
        }
        _ => panic!("expected the client error"),
    }
}

#[test]
fn a_full_round() {
    let (s, a) = step(PollState::Starting, PollEvent::CurrentSlot(Ok(100)));
    assert_eq!(last(&s), Some(100));
    assert!(matches!(a, PollAction::GetCurrentSlot));
    let (s, a) = step(s, PollEvent::CurrentSlot(Ok(105)));
    assert!(matches!(s, PollState::FetchingBlocks { last_processed_slot: 100 }));
    assert!(matches!(a, PollAction::GetBlocks { start_slot: 101, end_slot: 105 }));
    let (s, a) = step(s, PollEvent::Blocks(Ok(vec![101, 103, 105])));
    match a {
        PollAction::ProcessBlocks(slots) => assert_eq!(slots, vec![101, 103, 105]),
        _ => panic!("expected blocks to process"),
    }
    let (s, a) = step(s, PollEvent::BlocksProcessed(vec![Ok(103), Err(105), Ok(101)]));
    assert!(matches!(s, PollState::Sleeping { last_processed_slot: 103 }));
    assert!(matches!(a, PollAction::Sleep));
    let (s, a) = step(s, PollEvent::Slept);
    assert!(matches!(s, PollState::FetchingSlot { last_processed_slot: 103 }));
    assert!(matches!(a, PollAction::GetCurrentSlot));
    let (s, a) = step(s, PollEvent::CurrentSlot(Ok(110)));
    assert!(matches!(a, PollAction::GetBlocks { start_slot: 104, end_slot: 110 }));
    assert_eq!(last(&s), Some(103));
}

#[test]
fn client_errors_during_a_round_lead_to_sleep() {
    let (s, a) = step(
        PollState::FetchingSlot { last_processed_slot: 7 },
        PollEvent::CurrentSlot(Err(BcClientError::FailedToGetCurrentSlot("x".to_string()))),
    );
    assert!(matches!(s, PollState::Sleeping { last_processed_slot: 7 }));
    assert!(matches!(a, PollAction::Sleep));
    let (s, a) = step(
        PollState::FetchingBlocks { last_processed_slot: 7 },
        PollEvent::Blocks(Err(BcClientError::FailedToGetBlocks("y".to_string()))),
    );
    assert!(matches!(s, PollState::Sleeping { last_processed_slot: 7 }));
    assert!(matches!(a, PollAction::Sleep));
}

#[test]
fn shutdown_stops_a_running_loop() {
    for state in [
        PollState::FetchingSlot { last_processed_slot: 1 },
        PollState::FetchingBlocks { last_processed_slot: 1 },
        PollState::ProcessingBlocks { last_processed_slot: 1 },
        PollState::Sleeping { last_processed_slot: 1 },
    ] {
        let (s, a) = step(state, PollEvent::Shutdown);
        assert!(matches!(s, PollState::Stopped));
        assert!(matches!(a, PollAction::Finish(Ok(()))));
    }
    let (s, a) = step(PollState::Stopped, PollEvent::Slept);
    assert!(matches!(s, PollState::Stopped));
    assert!(matches!(a, PollAction::Wait));
    let (s, a) = step(PollState::Starting, PollEvent::Shutdown);
    assert!(matches!(s, PollState::Starting));
    assert!(matches!(a, PollAction::Wait));
}

#[test]
fn unexpected_events_are_waited_out() {
    let (s, a) = step(PollState::Sleeping { last_processed_slot: 4 }, PollEvent::CurrentSlot(Ok(9)));
    assert!(matches!(s, PollState::Sleeping { last_processed_slot: 4 }));
    assert!(matches!(a, PollAction::Wait));
}

#[test]
fn advanced_slot_is_the_highest_success() {
    assert_eq!(advance_last_processed_slot(10, &vec![]), 10);
    assert_eq!(advance_last_processed_slot(10, &vec![Ok(5), Err(20)]), 10);
    assert_eq!(advance_last_processed_slot(10, &vec![Ok(12), Ok(11), Err(30)]), 12);
}

#[test]
fn a_failed_block_behind_a_later_success_is_not_asked_for_again() {
    // Block 12 fails and 13 succeeds: the next round starts at 14.
    let (s, _) = step(
        PollState::ProcessingBlocks { last_processed_slot: 11 },
        PollEvent::BlocksProcessed(vec![Err(12), Ok(13)]),
    );
    let (s, _) = step(s, PollEvent::Slept);
    let (_, a) = step(s, PollEvent::CurrentSlot(Ok(20)));
    assert!(matches!(a, PollAction::GetBlocks { start_slot: 14, end_slot: 20 }));
}

#[test]
fn a_failed_block_with_no_later_success_is_asked_for_again() {
    let (s, _) = step(
        PollState::ProcessingBlocks { last_processed_slot: 11 },
        PollEvent::BlocksProcessed(vec![Ok(12), Err(13)]),
    );
    let (s, _) = step(s, PollEvent::Slept);
    let (_, a) = step(s, PollEvent::CurrentSlot(Ok(20)));
    assert!(matches!(a, PollAction::GetBlocks { start_slot: 13, end_slot: 20 }));
}

#[test]
fn processed_slot_never_goes_down() {
    let (s, _) = step(
        PollState::ProcessingBlocks { last_processed_slot: 50 },
        PollEvent::BlocksProcessed(vec![Ok(3), Ok(49)]),
    );
    assert!(matches!(s, PollState::Sleeping { last_processed_slot: 50 }));
}

#[test]
fn the_loop_without_shutdown_ends_on_a_client_error() {
    let (s, a) = legacy_step(
        PollState::FetchingSlot { last_processed_slot: 3 },
        PollEvent::CurrentSlot(Err(BcClientError::FailedToGetCurrentSlot("a".to_string()))),
    );
    assert!(matches!(s, PollState::Stopped));
    assert!(matches!(a, PollAction::Finish(Err(AggregatorError::FailedBcClient(_)))));
    let (s, a) = legacy_step(
        PollState::FetchingBlocks { last_processed_slot: 3 },
        PollEvent::Blocks(Err(BcClientError::FailedToGetBlocks("b".to_string()))),
    );
    assert!(matches!(s, PollState::Stopped));
    assert!(matches!(a, PollAction::Finish(Err(AggregatorError::FailedBcClient(_)))));
    let (s, a) = legacy_step(PollState::Sleeping { last_processed_slot: 3 }, PollEvent::Shutdown);
    assert!(matches!(s, PollState::Sleeping { last_processed_slot: 3 }));
    assert!(matches!(a, PollAction::Wait));
    let (s, a) = legacy_step(PollState::FetchingSlot { last_processed_slot: 3 }, PollEvent::CurrentSlot(Ok(8)));
    assert!(matches!(s, PollState::FetchingBlocks { last_processed_slot: 3 }));
    assert!(matches!(a, PollAction::GetBlocks { start_slot: 4, end_slot: 8 }));
}
