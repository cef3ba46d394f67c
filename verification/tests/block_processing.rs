use sol_tx_aggregator::application::aggregator::{BlockProcessing, SolanaAggregator, TransactionDetails};
use sol_tx_aggregator::domain::block::{
    CompiledInstruction, EncodedTransaction, EncodedTransactionWithStatusMeta, Message,
    TransactionBinaryEncoding, TransactionStatusMeta, UiConfirmedBlock, VersionedMessage,
    VersionedTransaction,
};
use sol_tx_aggregator::domain::errors::AggregatorError;
use sol_tx_aggregator::domain::models::{Notification, Pubkey};
use solana_sdk::message::Message as SolMessage;
use solana_sdk::pubkey::Pubkey as SolPubkey;
use solana_sdk::signature::Signature as SolSignature;
use solana_sdk::system_instruction::{self, SystemInstruction};
use solana_sdk::transaction::{Transaction as SolTransaction, VersionedTransaction as SolVersionedTransaction};
use solana_transaction_status::{Encodable, EncodedTransaction as SolEncoded, UiTransactionEncoding};

type Agg = SolanaAggregator<(), (), ()>;

fn key(b: u8) -> Pubkey {
    Pubkey::new_from_array([b; 32])
}

fn sol_key(b: u8) -> SolPubkey {
    SolPubkey::new_from_array([b; 32])
}

fn meta(fee: u64, pre: Vec<u64>, post: Vec<u64>) -> TransactionStatusMeta {
    TransactionStatusMeta { fee, pre_balances: pre, post_balances: post }
}

fn encode(tx: &SolVersionedTransaction) -> EncodedTransaction {
    match tx.encode(UiTransactionEncoding::Base64) {
        SolEncoded::Binary(blob, _) => EncodedTransaction::Binary(blob, TransactionBinaryEncoding::Base64),
        _ => panic!("expected a binary encoding"),
    }
}

fn unsigned(instructions: &[solana_sdk::instruction::Instruction], payer: &SolPubkey) -> SolVersionedTransaction {
    let message = SolMessage::new(instructions, Some(payer));
    SolVersionedTransaction::from(SolTransaction::new_unsigned(message))
}

fn zero_signature_text() -> String {
    SolSignature::default().to_string()
}

#[test]
fn into_transaction_reads_first_two_accounts_when_program_is_key_zero() {
    let id = "abc".to_string();
    let ix = CompiledInstruction { program_id_index: 0, accounts: vec![2, 1], data: vec![] };
    let keys = vec![key(10), key(11), key(12)];
    let m = meta(5000, vec![], vec![]);
    let details = TransactionDetails {
        tx_id: &id,
        instruction: &ix,
        account_keys: &keys,
        lamports: 42,
        meta: &m,
        block_time: Some(1_700_000_000),
        slot: 7,
    };
    let t = details.into_transaction(Some(5)).unwrap();
    assert_eq!(t.id, "abc");
    assert_eq!(t.sender.bytes, [12; 32]);
    assert_eq!(t.receiver.bytes, [11; 32]);
    assert_eq!(t.amount, 42);
    assert_eq!(t.fee, 5000);
    assert_eq!(t.slot, 7);
    assert_eq!(t.timestamp, 1_700_000_000);
}

#[test]
fn into_transaction_takes_receiver_at_program_index_otherwise() {
    let id = "x".to_string();
    let ix = CompiledInstruction { program_id_index: 2, accounts: vec![0, 1], data: vec![] };
    let keys = vec![key(1), key(2), key(3)];
    let m = meta(1, vec![], vec![]);
    let details = TransactionDetails {
        tx_id: &id,
        instruction: &ix,
        account_keys: &keys,
        lamports: 9,
        meta: &m,
        block_time: None,
        slot: 3,
    };
    let t = details.into_transaction(Some(123)).unwrap();
    assert_eq!(t.sender.bytes, [1; 32]);
    assert_eq!(t.receiver.bytes, [3; 32]);
    assert_eq!(t.timestamp, 123);
}

#[test]
fn into_transaction_without_any_time_gives_none() {
    let id = "x".to_string();
    let ix = CompiledInstruction { program_id_index: 0, accounts: vec![0, 1], data: vec![] };
    let keys = vec![key(1), key(2)];
    let m = meta(1, vec![], vec![]);
    let details = TransactionDetails {
        tx_id: &id,
        instruction: &ix,
        account_keys: &keys,
        lamports: 9,
        meta: &m,
        block_time: None,
        slot: 3,
    };
    assert!(details.into_transaction(None).is_none());
}

#[test]
fn create_account_reads_second_account() {
    let ix = CompiledInstruction { program_id_index: 2, accounts: vec![0, 1], data: vec![] };
    let keys = vec![key(1), key(2), key(3)];
    let a = Agg::process_create_account(&ix, &keys, 777, 55);
    assert_eq!(a.address.bytes, [2; 32]);
    assert_eq!(a.balance, 777);
    assert_eq!(a.last_slot_updated, 55);
}

#[test]
fn balance_changes_become_accounts() {
    let keys = vec![key(1), key(2), key(3)];
    let m = meta(5, vec![100, 50, 7], vec![90, 50, 17]);
    let mut out = Vec::new();
    assert!(Agg::update_account_balances(&keys, &m, 4, &mut out));
    assert_eq!(out.len(), 2);
    match &out[0] {
        Notification::Account(a) => {
            assert_eq!(a.address.bytes, [1; 32]);
            assert_eq!(a.balance, 90);
            assert_eq!(a.last_slot_updated, 4);
        }
        _ => panic!("expected an account"),
    }
    match &out[1] {
        Notification::Account(a) => {
            assert_eq!(a.address.bytes, [3; 32]);
            assert_eq!(a.balance, 17);
        }
        _ => panic!("expected an account"),
    }
}

#[test]
fn balance_change_beyond_keys_stops_processing() {
    let keys = vec![key(1)];
    let m = meta(5, vec![100, 50], vec![90, 40]);
    let mut out = Vec::new();
    assert!(!Agg::update_account_balances(&keys, &m, 4, &mut out));
    assert_eq!(out.len(), 1);
}

#[test]
fn balances_are_paired_as_far_as_both_lists_go() {
    let keys = vec![key(1), key(2), key(3)];
    let m = meta(5, vec![1, 2, 3], vec![1]);
    let mut out = Vec::new();
    assert!(Agg::update_account_balances(&keys, &m, 4, &mut out));
    assert!(out.is_empty());
}

/// A block of one unsigned transaction with the given instruction (data and
/// accounts given by hand), whose message keys are payer 1, the accounts
/// 2 and 3, and the system program.
fn block_with_raw_instruction(data: Vec<u8>, balances_change: bool) -> UiConfirmedBlock {
    let ix = solana_sdk::instruction::Instruction {
        program_id: solana_sdk::system_program::id(),
        accounts: vec![
            solana_sdk::instruction::AccountMeta::new(sol_key(1), true),
            solana_sdk::instruction::AccountMeta::new(sol_key(2), false),
            solana_sdk::instruction::AccountMeta::new(sol_key(3), false),
        ],
        data,
    };
    let tx = unsigned(&[ix], &sol_key(1));
    let post = if balances_change { vec![1, 2, 3, 0] } else { vec![0, 0, 0, 0] };
    block_of(
        vec![EncodedTransactionWithStatusMeta {
            transaction: encode(&tx),
            meta: Some(meta(0, vec![0, 0, 0, 0], post)),
        }],
        Some(10),
    )
}

#[test]
fn transfer_data_is_read_with_bincode() {
    let data = bincode::serialize(&SystemInstruction::Transfer { lamports: 1234 }).unwrap();
    let processed = Agg::process_block(&block_with_raw_instruction(data, false), 2);
    assert_eq!(processed.notifications.len(), 1);
    match &processed.notifications[0] {
        Notification::Transaction(t) => {
            assert_eq!(t.amount, 1234);
            assert_eq!(t.sender.bytes, [1; 32]);
        }
        _ => panic!("expected a transaction"),
    }
}

#[test]
fn transfer_data_with_trailing_bytes_is_read() {
    let mut data = bincode::serialize(&SystemInstruction::Transfer { lamports: 7 }).unwrap();
    data.extend_from_slice(&[9, 9, 9]);
    let processed = Agg::process_block(&block_with_raw_instruction(data, false), 2);
    match &processed.notifications[0] {
        Notification::Transaction(t) => assert_eq!(t.amount, 7),
        _ => panic!("expected a transaction"),
    }
}

#[test]
fn create_account_data_is_read_with_bincode() {
    let data = bincode::serialize(&SystemInstruction::CreateAccount {
        lamports: 99,
        space: 10,
        owner: sol_key(4),
    })
    .unwrap();
    assert_eq!(data.len(), 52);
    let processed = Agg::process_block(&block_with_raw_instruction(data, false), 2);
    assert_eq!(processed.notifications.len(), 1);
    match &processed.notifications[0] {
        Notification::Account(a) => {
            assert_eq!(a.address.bytes, [2; 32]);
            assert_eq!(a.balance, 99);
        }
        _ => panic!("expected an account"),
    }
}

#[test]
fn other_and_unreadable_data_produce_nothing_but_balances() {
    let assign = bincode::serialize(&SystemInstruction::Assign { owner: sol_key(4) }).unwrap();
    for data in [assign, vec![2, 0, 0, 0, 1], vec![]] {
        let processed = Agg::process_block(&block_with_raw_instruction(data, true), 2);
        assert!(processed.status.is_ok());
        assert_eq!(processed.notifications.len(), 3);
        assert!(processed.notifications.iter().all(|n| matches!(n, Notification::Account(_))));
    }
}

#[test]
fn transaction_ids_are_base58_signatures() {
    let tx = unsigned(&[system_instruction::transfer(&sol_key(1), &sol_key(2), 1)], &sol_key(1));
    let block = block_of(
        vec![EncodedTransactionWithStatusMeta { transaction: encode(&tx), meta: Some(meta(0, vec![], vec![])) }],
        Some(1),
    );
    let processed = Agg::process_block(&block, 1);
    match &processed.notifications[0] {
        Notification::Transaction(t) => {
            assert_eq!(t.id, "1".repeat(64));
            assert_eq!(t.id, zero_signature_text());
        }
        _ => panic!("expected a transaction"),
    }
}

#[test]
fn transfer_details_of_both_message_versions() {
    let msg = || Message {
        account_keys: vec![key(1), key(2)],
        instructions: vec![CompiledInstruction { program_id_index: 1, accounts: vec![0], data: vec![9] }],
    };
    for message in [VersionedMessage::Legacy(msg()), VersionedMessage::V0(msg())] {
        let tx = VersionedTransaction { signatures: vec![], message };
        let (ixs, keys) = Agg::get_transfer_details(&tx);
        assert_eq!(keys.len(), 2);
        assert_eq!(keys[1].bytes, [2; 32]);
        assert_eq!(ixs.len(), 1);
        assert_eq!(ixs[0].data, vec![9]);
    }
}

fn block_of(txs: Vec<EncodedTransactionWithStatusMeta>, block_time: Option<i64>) -> UiConfirmedBlock {
    UiConfirmedBlock { transactions: Some(txs), block_time }
}

#[test]
fn block_with_a_transfer() {
    let tx = unsigned(&[system_instruction::transfer(&sol_key(1), &sol_key(2), 500)], &sol_key(1));
    let block = block_of(
        vec![EncodedTransactionWithStatusMeta {
            transaction: encode(&tx),
            meta: Some(meta(5000, vec![10_000, 0, 1], vec![4_500, 500, 1])),
        }],
        Some(1_650_000_000),
    );
    let BlockProcessing { notifications, status } = Agg::process_block(&block, 99);
    assert!(status.is_ok());
    assert_eq!(notifications.len(), 3);
    match &notifications[0] {
        Notification::Transaction(t) => {
            assert_eq!(t.id, zero_signature_text());
            assert_eq!(t.sender.bytes, [1; 32]);
            // The program runs from key 2, so the receiver is read at that index: the system program.
            assert_eq!(t.receiver.bytes, [0; 32]);
            assert_eq!(t.amount, 500);
            assert_eq!(t.fee, 5000);
            assert_eq!(t.slot, 99);
            assert_eq!(t.timestamp, 1_650_000_000);
        }
        _ => panic!("expected a transaction"),
    }
    match (&notifications[1], &notifications[2]) {
        (Notification::Account(a), Notification::Account(b)) => {
            assert_eq!((a.address.bytes, a.balance, a.last_slot_updated), ([1; 32], 4_500, 99));
            assert_eq!((b.address.bytes, b.balance, b.last_slot_updated), ([2; 32], 500, 99));
        }
        _ => panic!("expected two accounts"),
    }
}

#[test]
fn block_with_create_account() {
    let ix = system_instruction::create_account(&sol_key(1), &sol_key(5), 2_000, 0, &sol_key(9));
    let tx = unsigned(&[ix], &sol_key(1));
    let block = block_of(
        vec![EncodedTransactionWithStatusMeta {
            transaction: encode(&tx),
            meta: Some(meta(10, vec![5, 5, 1, 1], vec![5, 5, 1, 1])),
        }],
        None,
    );
    let processed = Agg::process_block(&block, 8);
    assert!(processed.status.is_ok());
    assert_eq!(processed.notifications.len(), 1);
    match &processed.notifications[0] {
        Notification::Account(a) => {
            assert_eq!(a.address.bytes, [5; 32]);
            assert_eq!(a.balance, 2_000);
            assert_eq!(a.last_slot_updated, 8);
        }
        _ => panic!("expected an account"),
    }
}

#[test]
fn transfer_without_block_time_is_stamped_by_the_clock() {
    let tx = unsigned(&[system_instruction::transfer(&sol_key(1), &sol_key(2), 1)], &sol_key(1));
    let block = block_of(
        vec![EncodedTransactionWithStatusMeta { transaction: encode(&tx), meta: Some(meta(0, vec![], vec![])) }],
        None,
    );
    let at = Agg::process_block_at(&block, 1, Some(777));
    match &at.notifications[0] {
        Notification::Transaction(t) => assert_eq!(t.timestamp, 777),
        _ => panic!("expected a transaction"),
    }
    let failed = Agg::process_block_at(&block, 1, None);
    assert!(failed.notifications.is_empty());
    assert!(matches!(failed.status, Err(AggregatorError::FailedToProcessBlock(1))));
    let now = Agg::process_block(&block, 1);
    match &now.notifications[0] {
        Notification::Transaction(t) => assert!(t.timestamp > 1_600_000_000),
        _ => panic!("expected a transaction"),
    }
}

#[test]
fn entries_without_meta_or_decoding_are_skipped() {
    let tx = unsigned(&[system_instruction::transfer(&sol_key(1), &sol_key(2), 1)], &sol_key(1));
    let block = block_of(
        vec![
            EncodedTransactionWithStatusMeta { transaction: encode(&tx), meta: None },
            EncodedTransactionWithStatusMeta { transaction: EncodedTransaction::Json, meta: Some(meta(0, vec![1], vec![2])) },
            EncodedTransactionWithStatusMeta { transaction: EncodedTransaction::Accounts, meta: Some(meta(0, vec![1], vec![2])) },
            EncodedTransactionWithStatusMeta {
                transaction: EncodedTransaction::Binary("!!".to_string(), TransactionBinaryEncoding::Base64),
                meta: Some(meta(0, vec![1], vec![2])),
            },
            EncodedTransactionWithStatusMeta {
                transaction: EncodedTransaction::LegacyBinary("0OIl".to_string()),
                meta: Some(meta(0, vec![1], vec![2])),
            },
        ],
        Some(1),
    );
    let processed = Agg::process_block(&block, 1);
    assert!(processed.status.is_ok());
    assert!(processed.notifications.is_empty());
    let empty = UiConfirmedBlock { transactions: None, block_time: None };
    let processed = Agg::process_block(&empty, 1);
    assert!(processed.status.is_ok());
    assert!(processed.notifications.is_empty());
}

#[test]
fn failure_keeps_what_came_before() {
    let good = unsigned(&[system_instruction::transfer(&sol_key(1), &sol_key(2), 1)], &sol_key(1));
    let block = block_of(
        vec![
            EncodedTransactionWithStatusMeta { transaction: encode(&good), meta: Some(meta(0, vec![], vec![])) },
            // A balance change at an index past the three account keys.
            EncodedTransactionWithStatusMeta {
                transaction: encode(&good),
                meta: Some(meta(0, vec![0, 0, 0, 0], vec![0, 0, 0, 1])),
            },
            EncodedTransactionWithStatusMeta { transaction: encode(&good), meta: Some(meta(0, vec![], vec![])) },
        ],
        Some(1),
    );
    let processed = Agg::process_block(&block, 21);
    assert_eq!(processed.notifications.len(), 2);
    assert!(matches!(processed.status, Err(AggregatorError::FailedToProcessBlock(21))));
}

#[test]
fn base58_and_version_zero_transactions_are_read() {
    let ix = system_instruction::transfer(&sol_key(1), &sol_key(2), 64);
    let legacy = unsigned(&[ix.clone()], &sol_key(1));
    let base58 = match legacy.encode(UiTransactionEncoding::Binary) {
        SolEncoded::LegacyBinary(blob) => EncodedTransaction::LegacyBinary(blob),
        _ => panic!("expected the legacy binary form"),
    };
    let v0_message = solana_sdk::message::v0::Message::try_compile(
        &sol_key(1),
        &[ix],
        &[],
        solana_sdk::hash::Hash::default(),
    )
    .unwrap();
    let v0 = SolVersionedTransaction {
        signatures: vec![SolSignature::default()],
        message: solana_sdk::message::VersionedMessage::V0(v0_message),
    };
    let block = block_of(
        vec![
            EncodedTransactionWithStatusMeta { transaction: base58, meta: Some(meta(0, vec![], vec![])) },
            EncodedTransactionWithStatusMeta { transaction: encode(&v0), meta: Some(meta(0, vec![], vec![])) },
        ],
        Some(3),
    );
    let processed = Agg::process_block(&block, 4);
    assert!(processed.status.is_ok());
    assert_eq!(processed.notifications.len(), 2);
    for n in &processed.notifications {
        match n {
            Notification::Transaction(t) => {
                assert_eq!(t.amount, 64);
                assert_eq!(t.sender.bytes, [1; 32]);
            }
            _ => panic!("expected transactions"),
        }
    }
}
