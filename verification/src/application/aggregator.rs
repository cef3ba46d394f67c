//! How a confirmed block becomes notifications.
//!
//! For every transaction of a block that decodes and carries a status, the
//! aggregator reads each instruction: a system `Transfer` becomes a
//! [`Transaction`], a system `CreateAccount` becomes an [`Account`] holding the
//! lamports it was funded with; then every account key whose balance changed
//! becomes an [`Account`] with its new balance. Where processing would read
//! past the end of an instruction's accounts or of the message's keys, or
//! finds no time to stamp a transfer with, processing of the block stops
//! there: what was produced before stands, and the block counts as failed.

use crate::domain::block::{
    CompiledInstruction, CompiledInstructionView, EncodedTransactionWithStatusMeta,
    EncodedTransactionWithStatusMetaView, MessageView, SystemInstructionKind,
    TransactionStatusMeta, TransactionStatusMetaView, UiConfirmedBlock, UiConfirmedBlockView,
    VersionedMessage, VersionedMessageView, VersionedTransaction, VersionedTransactionView,
};
use crate::domain::errors::AggregatorError;
use crate::domain::models::{
    Account, AccountView, Notification, NotificationView, Pubkey, Transaction, TransactionView,
};
use crate::infrastructure::clock;
use crate::infrastructure::solana_codec::{
    decode_transaction, decoded_transaction, parse_system_instruction, signature_text,
    signature_to_string, system_instruction_of,
};
use vstd::prelude::*;

verus! {

/// The aggregator: the client it fetches blocks with, the notifier it hands
/// what it finds to, and the shutdown signal it stops on.
pub struct SolanaAggregator<C, N, S> {
    pub bc_client: C,
    pub notifier: N,
    pub shutdown: S,
}

/// What processing a block produced: the notifications, in the order in which
/// they are to be delivered, and whether the block was processed to its end.
pub struct BlockProcessing {
    pub notifications: Vec<Notification>,
    pub status: Result<(), AggregatorError>,
}

/// Notifications in order, and whether processing went to the end.
pub type Outcome = (Seq<NotificationView>, bool);

pub open spec fn views(notifications: Seq<Notification>) -> Seq<NotificationView> {
    notifications.map_values(|n: Notification| n@)
}

/// One piece of processing followed by the next: the second runs only where
/// the first went to its end.
pub open spec fn then(first: Outcome, second: Outcome) -> Outcome {
    if first.1 {
        (first.0 + second.0, second.1)
    } else {
        first
    }
}

/// Pieces of processing run one after the other, stopping at the first that
/// does not go to its end.
pub open spec fn run_all(steps: Seq<Outcome>) -> Outcome
    decreases steps.len(),
{
    if steps.len() == 0 {
        (Seq::empty(), true)
    } else {
        then(run_all(steps.drop_last()), steps.last())
    }
}

pub open spec fn emit(n: NotificationView) -> Outcome {
    (seq![n], true)
}

pub open spec fn skip() -> Outcome {
    (Seq::empty(), true)
}

pub open spec fn fail() -> Outcome {
    (Seq::empty(), false)
}

/// The sender and the receiver of a transfer. Where the program runs from
/// key 0, they are the keys of the instruction's first two accounts; else the
/// sender is the key of its first account and the receiver the key at the
/// program's own index. `None` where an index reaches past its sequence.
pub open spec fn transfer_parties(ix: CompiledInstructionView, keys: Seq<Seq<u8>>) -> Option<
    (Seq<u8>, Seq<u8>),
> {
    let executer = ix.program_id_index as int;
    if executer == 0 {
        if ix.accounts.len() >= 2 && (ix.accounts[0] as int) < keys.len() && (ix.accounts[1] as int)
            < keys.len() {
            Some((keys[ix.accounts[0] as int], keys[ix.accounts[1] as int]))
        } else {
            None
        }
    } else {
        if ix.accounts.len() >= 1 && (ix.accounts[0] as int) < keys.len() && executer
            < keys.len() {
            Some((keys[ix.accounts[0] as int], keys[executer]))
        } else {
            None
        }
    }
}

/// The time a transfer is stamped with: the block's time, else the clock's.
pub open spec fn stamp(block_time: Option<i64>, clock: Option<i64>) -> Option<i64> {
    match block_time {
        Some(t) => Some(t),
        None => clock,
    }
}

/// The new account of a `CreateAccount`: the key of its second account.
pub open spec fn created_account(ix: CompiledInstructionView, keys: Seq<Seq<u8>>) -> Option<
    Seq<u8>,
> {
    if ix.accounts.len() >= 2 && (ix.accounts[1] as int) < keys.len() {
        Some(keys[ix.accounts[1] as int])
    } else {
        None
    }
}

/// What one instruction produces.
pub open spec fn instruction_outcome(
    ix: CompiledInstructionView,
    keys: Seq<Seq<u8>>,
    tx_id: Seq<char>,
    fee: u64,
    time: Option<i64>,
    slot: u64,
) -> Outcome {
    match system_instruction_of(ix.data) {
        Some(SystemInstructionKind::Transfer { lamports }) => match (
            transfer_parties(ix, keys),
            time,
        ) {
            (Some(parties), Some(timestamp)) => emit(
                NotificationView::Transaction(
                    TransactionView {
                        id: tx_id,
                        sender: parties.0,
                        receiver: parties.1,
                        amount: lamports,
                        fee,
                        slot,
                        timestamp,
                    },
                ),
            ),
            _ => fail(),
        },
        Some(SystemInstructionKind::CreateAccount { lamports }) => match created_account(ix, keys) {
            Some(address) => emit(
                NotificationView::Account(
                    AccountView { address, balance: lamports, last_slot_updated: slot },
                ),
            ),
            None => fail(),
        },
        _ => skip(),
    }
}

pub open spec fn instruction_steps(
    ixs: Seq<CompiledInstructionView>,
    keys: Seq<Seq<u8>>,
    tx_id: Seq<char>,
    fee: u64,
    time: Option<i64>,
    slot: u64,
) -> Seq<Outcome> {
    ixs.map_values(|ix: CompiledInstructionView| instruction_outcome(ix, keys, tx_id, fee, time, slot))
}

/// What the balance of key `idx` produces: the account with its new balance
/// where the balance changed.
pub open spec fn balance_outcome(
    keys: Seq<Seq<u8>>,
    meta: TransactionStatusMetaView,
    slot: u64,
    idx: int,
) -> Outcome {
    if meta.pre_balances[idx] != meta.post_balances[idx] {
        if idx < keys.len() {
            emit(
                NotificationView::Account(
                    AccountView {
                        address: keys[idx],
                        balance: meta.post_balances[idx],
                        last_slot_updated: slot,
                    },
                ),
            )
        } else {
            fail()
        }
    } else {
        skip()
    }
}

/// The balances are read in pairs, as far as both lists go.
pub open spec fn balance_pairs(meta: TransactionStatusMetaView) -> nat {
    if meta.pre_balances.len() <= meta.post_balances.len() {
        meta.pre_balances.len()
    } else {
        meta.post_balances.len()
    }
}

pub open spec fn balance_steps(
    keys: Seq<Seq<u8>>,
    meta: TransactionStatusMetaView,
    slot: u64,
) -> Seq<Outcome> {
    Seq::new(balance_pairs(meta), |idx: int| balance_outcome(keys, meta, slot, idx))
}

/// The account keys and the instructions of a message, legacy or version 0.
pub open spec fn message_parts(message: VersionedMessageView) -> MessageView {
    match message {
        VersionedMessageView::Legacy(m) => m,
        VersionedMessageView::V0(m) => m,
    }
}

/// What a decoded transaction with its status produces: its instructions, in
/// order, then its balance changes. The transaction's id is the text of its
/// first signature; one without signatures stops processing.
pub open spec fn transaction_outcome(
    tx: VersionedTransactionView,
    meta: TransactionStatusMetaView,
    time: Option<i64>,
    slot: u64,
) -> Outcome {
    if tx.signatures.len() == 0 {
        fail()
    } else {
        let tx_id = signature_text(tx.signatures[0]);
        let parts = message_parts(tx.message);
        then(
            run_all(
                instruction_steps(parts.instructions, parts.account_keys, tx_id, meta.fee, time, slot),
            ),
            run_all(balance_steps(parts.account_keys, meta, slot)),
        )
    }
}

/// What one transaction of a block produces: nothing unless it decodes and
/// carries a status.
pub open spec fn entry_outcome(
    entry: EncodedTransactionWithStatusMetaView,
    time: Option<i64>,
    slot: u64,
) -> Outcome {
    match decoded_transaction(entry.transaction) {
        Some(tx) => match entry.meta {
            Some(meta) => transaction_outcome(tx, meta, time, slot),
            None => skip(),
        },
        None => skip(),
    }
}

pub open spec fn entry_steps(
    entries: Seq<EncodedTransactionWithStatusMetaView>,
    time: Option<i64>,
    slot: u64,
) -> Seq<Outcome> {
    entries.map_values(|e: EncodedTransactionWithStatusMetaView| entry_outcome(e, time, slot))
}

/// What a block at `slot` produces, given the clock's reading in seconds
/// since the Unix epoch (`None` where the clock reads before the epoch).
pub open spec fn block_outcome(block: UiConfirmedBlockView, slot: u64, clock: Option<i64>) -> Outcome {
    match block.transactions {
        Some(entries) => run_all(entry_steps(entries, stamp(block.block_time, clock), slot)),
        None => skip(),
    }
}

pub open spec fn block_steps_of(block: UiConfirmedBlockView, slot: u64, clock: Option<i64>) -> Seq<
    Outcome,
> {
    entry_steps(block.transactions.unwrap(), stamp(block.block_time, clock), slot)
}

/// The status that goes with an outcome.
pub open spec fn status_of(completed: bool, slot: u64) -> Result<(), AggregatorError> {
    if completed {
        Ok(())
    } else {
        Err(AggregatorError::FailedToProcessBlock(slot))
    }
}

/// Running one more step after a prefix.
pub proof fn lemma_run_all_step(steps: Seq<Outcome>, i: int)
    requires
        0 <= i < steps.len(),
    ensures
        run_all(steps.take(i + 1)) == then(run_all(steps.take(i)), steps[i]),
{
    assert(steps.take(i + 1).drop_last() =~= steps.take(i));
}

/// Once a prefix stops short, the whole run ends as the prefix did.
pub proof fn lemma_run_all_stops(steps: Seq<Outcome>, i: int)
    requires
        0 <= i <= steps.len(),
        !run_all(steps.take(i)).1,
    ensures
        run_all(steps) == run_all(steps.take(i)),
    decreases steps.len() - i,
{
    if i == steps.len() {
        assert(steps.take(i) =~= steps);
    } else {
        lemma_run_all_step(steps, i);
        lemma_run_all_stops(steps, i + 1);
    }
}

/// Every notification satisfies `p`.
pub open spec fn all_satisfy(ns: Seq<NotificationView>, p: spec_fn(NotificationView) -> bool) -> bool {
    forall|i: int| 0 <= i < ns.len() ==> p(#[trigger] ns[i])
}

/// What holds of the notifications of every step holds of a run of them.
pub proof fn lemma_run_all_satisfies(steps: Seq<Outcome>, p: spec_fn(NotificationView) -> bool)
    requires
        forall|i: int| 0 <= i < steps.len() ==> all_satisfy(#[trigger] steps[i].0, p),
    ensures
        all_satisfy(run_all(steps).0, p),
    decreases steps.len(),
{
    if steps.len() > 0 {
        let rest = steps.drop_last();
        assert forall|i: int| 0 <= i < rest.len() implies all_satisfy(#[trigger] rest[i].0, p) by {
            assert(rest[i] == steps[i]);
        }
        lemma_run_all_satisfies(rest, p);
        let prefix = run_all(rest);
        if prefix.1 {
            let all = prefix.0 + steps.last().0;
            assert(all_satisfy(steps[steps.len() - 1].0, p));
            assert forall|i: int| 0 <= i < all.len() implies p(#[trigger] all[i]) by {
                if i < prefix.0.len() {
                    assert(all[i] == prefix.0[i]);
                } else {
                    assert(all[i] == steps.last().0[i - prefix.0.len()]);
                }
            }
        }
    }
}

/// What holds of the notifications of each piece holds of both in turn.
pub proof fn lemma_then_satisfies(first: Outcome, second: Outcome, p: spec_fn(NotificationView) -> bool)
    requires
        all_satisfy(first.0, p),
        all_satisfy(second.0, p),
    ensures
        all_satisfy(then(first, second).0, p),
{
    if first.1 {
        let all = first.0 + second.0;
        assert forall|i: int| 0 <= i < all.len() implies p(#[trigger] all[i]) by {
            if i < first.0.len() {
                assert(all[i] == first.0[i]);
            } else {
                assert(all[i] == second.0[i - first.0.len()]);
            }
        }
    }
}

/// What holds of everything a single transaction can produce holds of a block.
pub proof fn lemma_block_satisfies(
    block: UiConfirmedBlockView,
    slot: u64,
    clock: Option<i64>,
    p: spec_fn(NotificationView) -> bool,
)
    requires
        forall|ix: CompiledInstructionView, keys: Seq<Seq<u8>>, id: Seq<char>, fee: u64|
            all_satisfy(
                #[trigger] instruction_outcome(ix, keys, id, fee, stamp(block.block_time, clock), slot).0,
                p,
            ),
        forall|keys: Seq<Seq<u8>>, meta: TransactionStatusMetaView, idx: int|
            0 <= idx < balance_pairs(meta) ==> all_satisfy(
                #[trigger] balance_outcome(keys, meta, slot, idx).0,
                p,
            ),
    ensures
        all_satisfy(block_outcome(block, slot, clock).0, p),
{
    let time = stamp(block.block_time, clock);
    if let Some(entries) = block.transactions {
        let steps = entry_steps(entries, time, slot);
        assert forall|i: int| 0 <= i < steps.len() implies all_satisfy(#[trigger] steps[i].0, p) by {
            let e = entries[i];
            if let Some(tx) = decoded_transaction(e.transaction) {
                if let Some(meta) = e.meta {
                    if tx.signatures.len() > 0 {
                        let parts = message_parts(tx.message);
                        let ids = instruction_steps(
                            parts.instructions,
                            parts.account_keys,
                            signature_text(tx.signatures[0]),
                            meta.fee,
                            time,
                            slot,
                        );
                        let bs = balance_steps(parts.account_keys, meta, slot);
                        assert forall|j: int| 0 <= j < ids.len() implies all_satisfy(
                            #[trigger] ids[j].0,
                            p,
                        ) by {
                            assert(ids[j] == instruction_outcome(
                                parts.instructions[j],
                                parts.account_keys,
                                signature_text(tx.signatures[0]),
                                meta.fee,
                                time,
                                slot,
                            ));
                        }
                        assert forall|j: int| 0 <= j < bs.len() implies all_satisfy(
                            #[trigger] bs[j].0,
                            p,
                        ) by {
                            assert(bs[j] == balance_outcome(parts.account_keys, meta, slot, j));
                        }
                        lemma_run_all_satisfies(ids, p);
                        lemma_run_all_satisfies(bs, p);
                        lemma_then_satisfies(run_all(ids), run_all(bs), p);
                    }
                }
            }
        }
        lemma_run_all_satisfies(steps, p);
    }
}

/// The slot a notification records.
pub open spec fn slot_recorded(n: NotificationView) -> u64 {
    match n {
        NotificationView::Transaction(t) => t.slot,
        NotificationView::Account(a) => a.last_slot_updated,
    }
}

/// Everything found in a block records the block's slot.
pub proof fn law_notifications_record_block_slot(
    block: UiConfirmedBlockView,
    slot: u64,
    clock: Option<i64>,
)
    ensures
        forall|i: int|
            0 <= i < block_outcome(block, slot, clock).0.len() ==> slot_recorded(
                #[trigger] block_outcome(block, slot, clock).0[i],
            ) == slot,
{
    let p = |n: NotificationView| slot_recorded(n) == slot;
    lemma_block_satisfies(block, slot, clock, p);
    assert forall|i: int|
        0 <= i < block_outcome(block, slot, clock).0.len() implies slot_recorded(
        #[trigger] block_outcome(block, slot, clock).0[i],
    ) == slot by {
        assert(p(block_outcome(block, slot, clock).0[i]));
    }
}

/// Every transfer found in a block that carries a time is stamped with that
/// time, whatever the clock reads.
pub proof fn law_transfers_stamped_with_block_time(
    block: UiConfirmedBlockView,
    slot: u64,
    clock: Option<i64>,
)
    requires
        block.block_time is Some,
    ensures
        forall|i: int|
            0 <= i < block_outcome(block, slot, clock).0.len()
                && #[trigger] block_outcome(block, slot, clock).0[i] is Transaction ==> block_outcome(
                block,
                slot,
                clock,
            ).0[i]->Transaction_0.timestamp == block.block_time.unwrap(),
        block_outcome(block, slot, clock) == block_outcome(block, slot, None),
{
    let p = |n: NotificationView|
        n is Transaction ==> n->Transaction_0.timestamp == block.block_time.unwrap();
    lemma_block_satisfies(block, slot, clock, p);
    assert forall|i: int|
        0 <= i < block_outcome(block, slot, clock).0.len()
            && #[trigger] block_outcome(block, slot, clock).0[i] is Transaction implies block_outcome(
        block,
        slot,
        clock,
    ).0[i]->Transaction_0.timestamp == block.block_time.unwrap() by {
        assert(p(block_outcome(block, slot, clock).0[i]));
    }
    assert(stamp(block.block_time, clock) == stamp(block.block_time, None));
}

pub proof fn lemma_views_push(s: Seq<Notification>, n: Notification)
    ensures
        views(s.push(n)) == views(s).push(n@),
{
    assert(views(s.push(n)) =~= views(s).push(n@));
}

/// A transfer found in a transaction, with what is needed to record it.
pub struct TransactionDetails<'a> {
    pub tx_id: &'a String,
    pub instruction: &'a CompiledInstruction,
    pub account_keys: &'a [Pubkey],
    pub lamports: u64,
    pub meta: &'a TransactionStatusMeta,
    pub block_time: Option<i64>,
    pub slot: u64,
}

/// A transfer instruction whose indices can be read, with a time to stamp
/// it, records one transaction: the sender is the key at the instruction's
/// first account; the receiver is the key at its second account where the
/// program runs from key 0, else the key at the program's index; the amount
/// is the instruction's lamports. Where an index cannot be read or there is
/// no time, processing stops with nothing recorded.
pub proof fn law_transfer_instruction(
    ix: CompiledInstructionView,
    keys: Seq<Seq<u8>>,
    tx_id: Seq<char>,
    fee: u64,
    time: Option<i64>,
    slot: u64,
    lamports: u64,
)
    requires
        system_instruction_of(ix.data) == Some(SystemInstructionKind::Transfer { lamports }),
    ensures
        ({
            let pid = ix.program_id_index as int;
            let readable = ix.accounts.len() >= 1 && (ix.accounts[0] as int) < keys.len() && (if pid
                == 0 {
                ix.accounts.len() >= 2 && (ix.accounts[1] as int) < keys.len()
            } else {
                pid < keys.len()
            });
            &&& readable && time is Some ==> instruction_outcome(ix, keys, tx_id, fee, time, slot)
                == (
                seq![
                    NotificationView::Transaction(
                        TransactionView {
                            id: tx_id,
                            sender: keys[ix.accounts[0] as int],
                            receiver: if pid == 0 {
                                keys[ix.accounts[1] as int]
                            } else {
                                keys[pid]
                            },
                            amount: lamports,
                            fee,
                            slot,
                            timestamp: time.unwrap(),
                        },
                    ),
                ],
                true,
            )
            &&& !(readable && time is Some) ==> instruction_outcome(
                ix,
                keys,
                tx_id,
                fee,
                time,
                slot,
            ) == (Seq::<NotificationView>::empty(), false)
        }),
{
}

/// A `CreateAccount` instruction whose second account can be read records
/// the account at that index, holding the lamports it was funded with;
/// otherwise processing stops with nothing recorded.
pub proof fn law_create_account_instruction(
    ix: CompiledInstructionView,
    keys: Seq<Seq<u8>>,
    tx_id: Seq<char>,
    fee: u64,
    time: Option<i64>,
    slot: u64,
    lamports: u64,
)
    requires
        system_instruction_of(ix.data) == Some(SystemInstructionKind::CreateAccount { lamports }),
    ensures
        ix.accounts.len() >= 2 && (ix.accounts[1] as int) < keys.len() ==> instruction_outcome(
            ix,
            keys,
            tx_id,
            fee,
            time,
            slot,
        ) == (
            seq![
                NotificationView::Account(
                    AccountView {
                        address: keys[ix.accounts[1] as int],
                        balance: lamports,
                        last_slot_updated: slot,
                    },
                ),
            ],
            true,
        ),
        !(ix.accounts.len() >= 2 && (ix.accounts[1] as int) < keys.len()) ==> instruction_outcome(
            ix,
            keys,
            tx_id,
            fee,
            time,
            slot,
        ) == (Seq::<NotificationView>::empty(), false),
{
}

/// Any other instruction, and data that is no system instruction, records
/// nothing and lets processing go on.
pub proof fn law_other_instruction(
    ix: CompiledInstructionView,
    keys: Seq<Seq<u8>>,
    tx_id: Seq<char>,
    fee: u64,
    time: Option<i64>,
    slot: u64,
)
    requires
        !(system_instruction_of(ix.data) matches Some(SystemInstructionKind::Transfer { .. })),
        !(system_instruction_of(ix.data) matches Some(SystemInstructionKind::CreateAccount { .. })),
    ensures
        instruction_outcome(ix, keys, tx_id, fee, time, slot) == (
            Seq::<NotificationView>::empty(),
            true,
        ),
{
}

/// The balance of key `idx`: where it changed, whatever its new value (zero
/// included), the account is recorded with its new balance, or processing
/// stops where the key cannot be read; where it did not change, nothing.
pub proof fn law_balance_change(
    keys: Seq<Seq<u8>>,
    meta: TransactionStatusMetaView,
    slot: u64,
    idx: int,
)
    requires
        0 <= idx < meta.pre_balances.len(),
        idx < meta.post_balances.len(),
    ensures
        meta.pre_balances[idx] != meta.post_balances[idx] && idx < keys.len() ==> balance_outcome(
            keys,
            meta,
            slot,
            idx,
        ) == (
            seq![
                NotificationView::Account(
                    AccountView {
                        address: keys[idx],
                        balance: meta.post_balances[idx],
                        last_slot_updated: slot,
                    },
                ),
            ],
            true,
        ),
        meta.pre_balances[idx] != meta.post_balances[idx] && idx >= keys.len() ==> balance_outcome(
            keys,
            meta,
            slot,
            idx,
        ) == (Seq::<NotificationView>::empty(), false),
        meta.pre_balances[idx] == meta.post_balances[idx] ==> balance_outcome(keys, meta, slot, idx)
            == (Seq::<NotificationView>::empty(), true),
{
}

/// A run that went to its end went through every step to its end, and holds
/// everything each step produced.
pub proof fn lemma_completed_run_holds_every_step(steps: Seq<Outcome>)
    requires
        run_all(steps).1,
    ensures
        forall|i: int| 0 <= i < steps.len() ==> (#[trigger] steps[i]).1,
        forall|i: int, k: int|
            0 <= i < steps.len() && 0 <= k < steps[i].0.len() ==> run_all(steps).0.contains(
                #[trigger] steps[i].0[k],
            ),
    decreases steps.len(),
{
    if steps.len() > 0 {
        let rest = steps.drop_last();
        let last = steps.last();
        assert(run_all(rest).1);
        lemma_completed_run_holds_every_step(rest);
        let all = run_all(steps).0;
        assert(all == run_all(rest).0 + last.0);
        assert forall|i: int| 0 <= i < steps.len() implies (#[trigger] steps[i]).1 by {
            if i < steps.len() - 1 {
                assert(rest[i] == steps[i]);
            }
        }
        assert forall|i: int, k: int|
            0 <= i < steps.len() && 0 <= k < steps[i].0.len() implies all.contains(
            #[trigger] steps[i].0[k],
        ) by {
            if i < steps.len() - 1 {
                assert(rest[i] == steps[i]);
                assert(run_all(rest).0.contains(rest[i].0[k]));
                let w = choose|w: int|
                    0 <= w < run_all(rest).0.len() && run_all(rest).0[w] == rest[i].0[k];
                assert(all[w] == run_all(rest).0[w]);
            } else {
                assert(all[run_all(rest).0.len() + k] == last.0[k]);
            }
        }
    }
}

/// Every transaction recorded from a transaction carries as its id the text
/// of the transaction's first signature.
pub proof fn law_transaction_id_is_first_signature(
    tx: VersionedTransactionView,
    meta: TransactionStatusMetaView,
    time: Option<i64>,
    slot: u64,
)
    ensures
        forall|k: int|
            0 <= k < transaction_outcome(tx, meta, time, slot).0.len() && (
            #[trigger] transaction_outcome(tx, meta, time, slot).0[k]) is Transaction
                ==> tx.signatures.len() > 0 && transaction_outcome(tx, meta, time, slot).0[k]->Transaction_0.id
                == signature_text(tx.signatures[0]),
{
    if tx.signatures.len() > 0 {
        let id = signature_text(tx.signatures[0]);
        let parts = message_parts(tx.message);
        let p = |n: NotificationView| n is Transaction ==> n->Transaction_0.id == id;
        let ids = instruction_steps(parts.instructions, parts.account_keys, id, meta.fee, time, slot);
        let bs = balance_steps(parts.account_keys, meta, slot);
        assert forall|j: int| 0 <= j < ids.len() implies all_satisfy(#[trigger] ids[j].0, p) by {
            assert(ids[j] == instruction_outcome(
                parts.instructions[j],
                parts.account_keys,
                id,
                meta.fee,
                time,
                slot,
            ));
        }
        assert forall|j: int| 0 <= j < bs.len() implies all_satisfy(#[trigger] bs[j].0, p) by {
            assert(bs[j] == balance_outcome(parts.account_keys, meta, slot, j));
        }
        lemma_run_all_satisfies(ids, p);
        lemma_run_all_satisfies(bs, p);
        lemma_then_satisfies(run_all(ids), run_all(bs), p);
        let o = transaction_outcome(tx, meta, time, slot);
        assert forall|k: int| 0 <= k < o.0.len() && (#[trigger] o.0[k]) is Transaction implies o.0[k]->Transaction_0.id
            == id by {
            assert(p(o.0[k]));
        }
    }
}

/// A transaction processed to its end records: for every transfer
/// instruction, the transfer from the key at its first account (to the key
/// at its second account where the program runs from key 0, else to the key
/// at the program's index), with the instruction's lamports, the
/// transaction's fee, the slot, the time, and the text of the first
/// signature as id; for every `CreateAccount`, the key at its second account
/// with the lamports it was funded with; and for every key whose balance
/// changed, whatever the new balance, the account with that balance.
pub proof fn law_completed_transaction_records(
    tx: VersionedTransactionView,
    meta: TransactionStatusMetaView,
    time: Option<i64>,
    slot: u64,
)
    requires
        transaction_outcome(tx, meta, time, slot).1,
    ensures
        ({
            let events = transaction_outcome(tx, meta, time, slot).0;
            let parts = message_parts(tx.message);
            let ixs = parts.instructions;
            let keys = parts.account_keys;
            &&& tx.signatures.len() > 0
            &&& forall|j: int|
                #![trigger system_instruction_of(ixs[j].data)]
                0 <= j < ixs.len() ==> (system_instruction_of(ixs[j].data) matches Some(
                    SystemInstructionKind::Transfer { lamports },
                ) ==> {
                    let pid = ixs[j].program_id_index as int;
                    &&& time is Some
                    &&& ixs[j].accounts.len() >= 1 && (ixs[j].accounts[0] as int) < keys.len()
                    &&& pid == 0 ==> ixs[j].accounts.len() >= 2 && (ixs[j].accounts[1] as int)
                        < keys.len()
                    &&& pid != 0 ==> pid < keys.len()
                    &&& events.contains(
                        NotificationView::Transaction(
                            TransactionView {
                                id: signature_text(tx.signatures[0]),
                                sender: keys[ixs[j].accounts[0] as int],
                                receiver: if pid == 0 {
                                    keys[ixs[j].accounts[1] as int]
                                } else {
                                    keys[pid]
                                },
                                amount: lamports,
                                fee: meta.fee,
                                slot,
                                timestamp: time.unwrap(),
                            },
                        ),
                    )
                })
            &&& forall|j: int|
                #![trigger system_instruction_of(ixs[j].data)]
                0 <= j < ixs.len() ==> (system_instruction_of(ixs[j].data) matches Some(
                    SystemInstructionKind::CreateAccount { lamports },
                ) ==> {
                    &&& ixs[j].accounts.len() >= 2 && (ixs[j].accounts[1] as int) < keys.len()
                    &&& events.contains(
                        NotificationView::Account(
                            AccountView {
                                address: keys[ixs[j].accounts[1] as int],
                                balance: lamports,
                                last_slot_updated: slot,
                            },
                        ),
                    )
                })
            &&& forall|idx: int|
                0 <= idx < meta.pre_balances.len() && idx < meta.post_balances.len()
                    && #[trigger] meta.pre_balances[idx] != meta.post_balances[idx] ==> {
                    &&& idx < keys.len()
                    &&& events.contains(
                        NotificationView::Account(
                            AccountView {
                                address: keys[idx],
                                balance: meta.post_balances[idx],
                                last_slot_updated: slot,
                            },
                        ),
                    )
                }
        }),
{
    let id = signature_text(tx.signatures[0]);
    let parts = message_parts(tx.message);
    let ixs = parts.instructions;
    let keys = parts.account_keys;
    let is = instruction_steps(ixs, keys, id, meta.fee, time, slot);
    let bs = balance_steps(keys, meta, slot);
    let events = transaction_outcome(tx, meta, time, slot).0;
    assert(run_all(is).1);
    assert(run_all(bs).1);
    assert(events == run_all(is).0 + run_all(bs).0);
    lemma_completed_run_holds_every_step(is);
    lemma_completed_run_holds_every_step(bs);
    assert forall|j: int|
        #![trigger system_instruction_of(ixs[j].data)]
        0 <= j < ixs.len() implies (system_instruction_of(ixs[j].data) matches Some(
            SystemInstructionKind::Transfer { lamports },
        ) ==> {
        let pid = ixs[j].program_id_index as int;
        &&& time is Some
        &&& ixs[j].accounts.len() >= 1 && (ixs[j].accounts[0] as int) < keys.len()
        &&& pid == 0 ==> ixs[j].accounts.len() >= 2 && (ixs[j].accounts[1] as int) < keys.len()
        &&& pid != 0 ==> pid < keys.len()
        &&& events.contains(
            NotificationView::Transaction(
                TransactionView {
                    id,
                    sender: keys[ixs[j].accounts[0] as int],
                    receiver: if pid == 0 {
                        keys[ixs[j].accounts[1] as int]
                    } else {
                        keys[pid]
                    },
                    amount: lamports,
                    fee: meta.fee,
                    slot,
                    timestamp: time.unwrap(),
                },
            ),
        )
    }) by {
        if let Some(SystemInstructionKind::Transfer { lamports }) = system_instruction_of(ixs[j].data) {
        assert(is[j] == instruction_outcome(ixs[j], keys, id, meta.fee, time, slot));
        assert(is[j].1);
        law_transfer_instruction(ixs[j], keys, id, meta.fee, time, slot, lamports);
        let e = is[j].0[0];
        assert(run_all(is).0.contains(e));
        let w = choose|w: int| 0 <= w < run_all(is).0.len() && run_all(is).0[w] == e;
        assert(events[w] == e);
        }
    }
    assert forall|j: int|
        #![trigger system_instruction_of(ixs[j].data)]
        0 <= j < ixs.len() implies (system_instruction_of(ixs[j].data) matches Some(
            SystemInstructionKind::CreateAccount { lamports },
        ) ==> {
        &&& ixs[j].accounts.len() >= 2 && (ixs[j].accounts[1] as int) < keys.len()
        &&& events.contains(
            NotificationView::Account(
                AccountView {
                    address: keys[ixs[j].accounts[1] as int],
                    balance: lamports,
                    last_slot_updated: slot,
                },
            ),
        )
    }) by {
        if let Some(SystemInstructionKind::CreateAccount { lamports }) = system_instruction_of(ixs[j].data) {
        assert(is[j] == instruction_outcome(ixs[j], keys, id, meta.fee, time, slot));
        assert(is[j].1);
        law_create_account_instruction(ixs[j], keys, id, meta.fee, time, slot, lamports);
        let e = is[j].0[0];
        assert(run_all(is).0.contains(e));
        let w = choose|w: int| 0 <= w < run_all(is).0.len() && run_all(is).0[w] == e;
        assert(events[w] == e);
        }
    }
    assert forall|idx: int|
        0 <= idx < meta.pre_balances.len() && idx < meta.post_balances.len()
            && #[trigger] meta.pre_balances[idx] != meta.post_balances[idx] implies {
        &&& idx < keys.len()
        &&& events.contains(
            NotificationView::Account(
                AccountView {
                    address: keys[idx],
                    balance: meta.post_balances[idx],
                    last_slot_updated: slot,
                },
            ),
        )
    } by {
        assert(idx < balance_pairs(meta));
        assert(bs[idx] == balance_outcome(keys, meta, slot, idx));
        assert(bs[idx].1);
        law_balance_change(keys, meta, slot, idx);
        let e = bs[idx].0[0];
        assert(run_all(bs).0.contains(e));
        let w = choose|w: int| 0 <= w < run_all(bs).0.len() && run_all(bs).0[w] == e;
        assert(events[run_all(is).0.len() + w] == e);
    }
}

/// What a transaction may record, and nothing else: a transfer of one of
/// its transfer instructions, from the key at its first account, with the
/// instruction's lamports; the account at the second index of one of its
/// `CreateAccount` instructions, with the lamports it was funded with; or a
/// key whose balance changed, with its new balance.
pub open spec fn recorded_from(
    tx: VersionedTransactionView,
    meta: TransactionStatusMetaView,
    slot: u64,
    n: NotificationView,
) -> bool {
    let parts = message_parts(tx.message);
    let ixs = parts.instructions;
    let keys = parts.account_keys;
    match n {
        NotificationView::Transaction(t) => exists|j: int|
            0 <= j < ixs.len() && #[trigger] system_instruction_of(ixs[j].data) == Some(
                SystemInstructionKind::Transfer { lamports: t.amount },
            ) && (ixs[j].accounts.len() >= 1 && (ixs[j].accounts[0] as int) < keys.len())
                && t.sender == keys[ixs[j].accounts[0] as int] && t.fee == meta.fee && t.slot
                == slot,
        NotificationView::Account(a) => (exists|j: int|
            0 <= j < ixs.len() && #[trigger] system_instruction_of(ixs[j].data) == Some(
                SystemInstructionKind::CreateAccount { lamports: a.balance },
            ) && ixs[j].accounts.len() >= 2 && (ixs[j].accounts[1] as int) < keys.len()
                && a.address == keys[ixs[j].accounts[1] as int] && a.last_slot_updated == slot)
            || (exists|idx: int|
            0 <= idx < meta.pre_balances.len() && idx < meta.post_balances.len() && idx
                < keys.len() && #[trigger] meta.pre_balances[idx] != meta.post_balances[idx]
                && a.address == keys[idx] && a.balance == meta.post_balances[idx]
                && a.last_slot_updated == slot),
    }
}

/// Everything a transaction records comes from one of its instructions or
/// one of its balance changes.
pub proof fn law_transaction_records_only_what_it_holds(
    tx: VersionedTransactionView,
    meta: TransactionStatusMetaView,
    time: Option<i64>,
    slot: u64,
)
    ensures
        forall|k: int|
            0 <= k < transaction_outcome(tx, meta, time, slot).0.len() ==> recorded_from(
                tx,
                meta,
                slot,
                #[trigger] transaction_outcome(tx, meta, time, slot).0[k],
            ),
{
    if tx.signatures.len() > 0 {
        let id = signature_text(tx.signatures[0]);
        let parts = message_parts(tx.message);
        let ixs = parts.instructions;
        let keys = parts.account_keys;
        let p = |n: NotificationView| recorded_from(tx, meta, slot, n);
        let is = instruction_steps(ixs, keys, id, meta.fee, time, slot);
        let bs = balance_steps(keys, meta, slot);
        assert forall|j: int| 0 <= j < is.len() implies all_satisfy(#[trigger] is[j].0, p) by {
            assert(is[j] == instruction_outcome(ixs[j], keys, id, meta.fee, time, slot));
            match system_instruction_of(ixs[j].data) {
                Some(SystemInstructionKind::Transfer { lamports }) => {
                    law_transfer_instruction(ixs[j], keys, id, meta.fee, time, slot, lamports);
                    if is[j].0.len() > 0 {
                        let n = is[j].0[0];
                        assert(system_instruction_of(ixs[j].data) == Some(
                            SystemInstructionKind::Transfer { lamports: n->Transaction_0.amount },
                        ));
                        assert(p(n));
                    }
                },
                Some(SystemInstructionKind::CreateAccount { lamports }) => {
                    law_create_account_instruction(ixs[j], keys, id, meta.fee, time, slot, lamports);
                    if is[j].0.len() > 0 {
                        let n = is[j].0[0];
                        assert(system_instruction_of(ixs[j].data) == Some(
                            SystemInstructionKind::CreateAccount { lamports: n->Account_0.balance },
                        ));
                        assert(p(n));
                    }
                },
                _ => {
                    law_other_instruction(ixs[j], keys, id, meta.fee, time, slot);
                },
            }
        }
        assert forall|j: int| 0 <= j < bs.len() implies all_satisfy(#[trigger] bs[j].0, p) by {
            assert(bs[j] == balance_outcome(keys, meta, slot, j));
            law_balance_change(keys, meta, slot, j);
            if bs[j].0.len() > 0 {
                let n = bs[j].0[0];
                assert(meta.pre_balances[j] != meta.post_balances[j]);
                assert(p(n));
            }
        }
        lemma_run_all_satisfies(is, p);
        lemma_run_all_satisfies(bs, p);
        lemma_then_satisfies(run_all(is), run_all(bs), p);
        let o = transaction_outcome(tx, meta, time, slot);
        assert forall|k: int| 0 <= k < o.0.len() implies recorded_from(
            tx,
            meta,
            slot,
            #[trigger] o.0[k],
        ) by {
            assert(p(o.0[k]));
        }
    }
}

/// A block processed to its end went through every transaction that
/// decodes and carries a status to its end, and holds everything each of
/// them recorded.
pub proof fn law_completed_block_holds_its_transactions(
    block: UiConfirmedBlockView,
    slot: u64,
    clock: Option<i64>,
    i: int,
)
    requires
        block_outcome(block, slot, clock).1,
        block.transactions is Some,
        0 <= i < block.transactions.unwrap().len(),
        decoded_transaction(block.transactions.unwrap()[i].transaction) is Some,
        block.transactions.unwrap()[i].meta is Some,
    ensures
        ({
            let tx = decoded_transaction(block.transactions.unwrap()[i].transaction).unwrap();
            let meta = block.transactions.unwrap()[i].meta.unwrap();
            let o = transaction_outcome(tx, meta, stamp(block.block_time, clock), slot);
            &&& o.1
            &&& forall|k: int|
                0 <= k < o.0.len() ==> block_outcome(block, slot, clock).0.contains(#[trigger] o.0[k])
        }),
{
    let entries = block.transactions.unwrap();
    let steps = entry_steps(entries, stamp(block.block_time, clock), slot);
    lemma_completed_run_holds_every_step(steps);
    assert(steps[i] == entry_outcome(entries[i], stamp(block.block_time, clock), slot));
}

impl<'a> TransactionDetails<'a> {
    /// The transfer as a transaction record, stamped with the block's time,
    /// else with the clock's reading; `None` where there is neither.
    pub fn into_transaction(self, clock: Option<i64>) -> (transaction: Option<Transaction>)
        requires
            transfer_parties(self.instruction@, self.account_keys@.map_values(|k: Pubkey| k@))
                is Some,
        ensures
            transaction is None <==> stamp(self.block_time, clock) is None,
            transaction matches Some(t) ==> {
                &&& t.sender@ == self.account_keys@[self.instruction@.accounts[0] as int]@
                &&& self.instruction.program_id_index == 0 ==> t.receiver@
                    == self.account_keys@[self.instruction@.accounts[1] as int]@
                &&& self.instruction.program_id_index != 0 ==> t.receiver@
                    == self.account_keys@[self.instruction.program_id_index as int]@
                &&& t.id@ == self.tx_id@
                &&& t.amount == self.lamports
            },
            transaction matches Some(t) ==> ({
                let parties = transfer_parties(
                    self.instruction@,
                    self.account_keys@.map_values(|k: Pubkey| k@),
                ).unwrap();
                t@ == TransactionView {
                    id: self.tx_id@,
                    sender: parties.0,
                    receiver: parties.1,
                    amount: self.lamports,
                    fee: self.meta.fee,
                    slot: self.slot,
                    timestamp: stamp(self.block_time, clock).unwrap(),
                }
            }),
    {
        let instruction = self.instruction;
        let account_keys = self.account_keys;
        let executer = instruction.program_id_index as usize;
        let sender: Pubkey;
        let receiver: Pubkey;
        if executer == 0 {
            sender = account_keys[instruction.accounts[executer] as usize];
            receiver = account_keys[instruction.accounts[executer + 1] as usize];
        } else {
            sender = account_keys[instruction.accounts[0] as usize];
            receiver = account_keys[executer];
        }
        let timestamp = match self.block_time {
            Some(t) => t,
            None => match clock {
                Some(now) => now,
                None => {
                    return None;
                },
            },
        };
        Some(
            Transaction {
                id: self.tx_id.clone(),
                sender,
                receiver,
                amount: self.lamports,
                fee: self.meta.fee,
                slot: self.slot,
                timestamp,
            },
        )
    }
}

/// Whether the transfer's sender and receiver can be read.
fn has_transfer_parties(instruction: &CompiledInstruction, account_keys: &[Pubkey]) -> (found: bool)
    ensures
        found == transfer_parties(instruction@, account_keys@.map_values(|k: Pubkey| k@)) is Some,
{
    let executer = instruction.program_id_index as usize;
    let n = account_keys.len();
    if executer == 0 {
        instruction.accounts.len() >= 2 && (instruction.accounts[0] as usize) < n
            && (instruction.accounts[1] as usize) < n
    } else {
        instruction.accounts.len() >= 1 && (instruction.accounts[0] as usize) < n && executer < n
    }
}

/// Whether the account that a `CreateAccount` creates can be read.
fn has_created_account(instruction: &CompiledInstruction, account_keys: &[Pubkey]) -> (found: bool)
    ensures
        found == created_account(instruction@, account_keys@.map_values(|k: Pubkey| k@)) is Some,
{
    instruction.accounts.len() >= 2 && (instruction.accounts[1] as usize) < account_keys.len()
}

impl<C, N, S> SolanaAggregator<C, N, S> {
    /// The account that a `CreateAccount` funded with `lamports` creates: the
    /// key of the instruction's second account.
    pub fn process_create_account(
        instruction: &CompiledInstruction,
        account_keys: &[Pubkey],
        lamports: u64,
        slot: u64,
    ) -> (account: Account)
        requires
            created_account(instruction@, account_keys@.map_values(|k: Pubkey| k@)) is Some,
        ensures
            account.address@ == account_keys@[instruction@.accounts[1] as int]@,
            account.balance == lamports,
            account.last_slot_updated == slot,
            account@ == (AccountView {
                address: created_account(instruction@, account_keys@.map_values(|k: Pubkey| k@))
                    .unwrap(),
                balance: lamports,
                last_slot_updated: slot,
            }),
    {
        let new_account = account_keys[instruction.accounts[1] as usize];
        Account { address: new_account, balance: lamports, last_slot_updated: slot }
    }

    /// Appends, for every key whose balance the transaction changed, the
    /// account with its new balance; returns whether every such key was found.
    pub fn update_account_balances(
        account_keys: &[Pubkey],
        meta: &TransactionStatusMeta,
        slot: u64,
        out: &mut Vec<Notification>,
    ) -> (completed: bool)
        ensures
            ({
                let o = run_all(balance_steps(account_keys@.map_values(|k: Pubkey| k@), meta@, slot));
                &&& views(final(out)@) == views(old(out)@) + o.0
                &&& completed == o.1
            }),
    {
        let ghost keys = account_keys@.map_values(|k: Pubkey| k@);
        let ghost steps = balance_steps(keys, meta@, slot);
        let n: usize = if meta.pre_balances.len() <= meta.post_balances.len() {
            meta.pre_balances.len()
        } else {
            meta.post_balances.len()
        };
        let mut idx: usize = 0;
        while idx < n
            invariant
                n == balance_pairs(meta@),
                steps.len() == n,
                idx <= n,
                steps == balance_steps(keys, meta@, slot),
                keys == account_keys@.map_values(|k: Pubkey| k@),
                run_all(steps.take(idx as int)).1,
                views(out@) == views(old(out)@) + run_all(steps.take(idx as int)).0,
            decreases n - idx,
        {
            proof {
                lemma_run_all_step(steps, idx as int);
            }
            let pre_balance = meta.pre_balances[idx];
            let post_balance = meta.post_balances[idx];
            if pre_balance != post_balance {
                if idx >= account_keys.len() {
                    proof {
                        lemma_run_all_stops(steps, idx + 1);
                    }
                    return false;
                }
                let account_key = account_keys[idx];
                let account = Account {
                    address: account_key,
                    balance: post_balance,
                    last_slot_updated: slot,
                };
                let notification = Notification::Account(account);
                proof {
                    lemma_views_push(out@, notification);
                }
                out.push(notification);
            }
            idx = idx + 1;
        }
        proof {
            assert(steps.take(n as int) =~= steps);
        }
        true
    }

    /// The instructions and the account keys of a transaction's message,
    /// legacy or version 0.
    pub fn get_transfer_details(transaction: &VersionedTransaction) -> (details: (
        Vec<CompiledInstruction>,
        Vec<Pubkey>,
    ))
        ensures
            details.0@.map_values(|i: CompiledInstruction| i@) == message_parts(
                transaction@.message,
            ).instructions,
            details.1@.map_values(|k: Pubkey| k@) == message_parts(transaction@.message).account_keys,
    {
        let message = match &transaction.message {
            VersionedMessage::Legacy(msg) => msg,
            VersionedMessage::V0(msg) => msg,
        };
        let mut instructions: Vec<CompiledInstruction> = Vec::new();
        let mut i: usize = 0;
        while i < message.instructions.len()
            invariant
                i <= message.instructions@.len(),
                instructions@.len() == i,
                forall|k: int| 0 <= k < i ==> #[trigger] instructions@[k]@ == message.instructions@[k]@,
            decreases message.instructions@.len() - i,
        {
            let copy = message.instructions[i].clone();
            instructions.push(copy);
            i = i + 1;
        }
        assert(instructions@.map_values(|x: CompiledInstruction| x@) =~= message.instructions@.map_values(
            |x: CompiledInstruction| x@,
        ));
        let mut account_keys: Vec<Pubkey> = Vec::new();
        let mut j: usize = 0;
        while j < message.account_keys.len()
            invariant
                j <= message.account_keys@.len(),
                account_keys@.len() == j,
                forall|k: int| 0 <= k < j ==> #[trigger] account_keys@[k]@ == message.account_keys@[k]@,
            decreases message.account_keys@.len() - j,
        {
            account_keys.push(message.account_keys[j]);
            j = j + 1;
        }
        assert(account_keys@.map_values(|k: Pubkey| k@) =~= message.account_keys@.map_values(
            |k: Pubkey| k@,
        ));
        (instructions, account_keys)
    }

    /// Appends what each instruction of a transaction produces, in order;
    /// returns whether every instruction was processed.
    pub fn process_instructions(
        instructions: &Vec<CompiledInstruction>,
        account_keys: &Vec<Pubkey>,
        tx_id: &String,
        meta: &TransactionStatusMeta,
        block_time: Option<i64>,
        clock: Option<i64>,
        slot: u64,
        out: &mut Vec<Notification>,
    ) -> (completed: bool)
        ensures
            ({
                let o = run_all(
                    instruction_steps(
                        instructions@.map_values(|i: CompiledInstruction| i@),
                        account_keys@.map_values(|k: Pubkey| k@),
                        tx_id@,
                        meta.fee,
                        stamp(block_time, clock),
                        slot,
                    ),
                );
                &&& views(final(out)@) == views(old(out)@) + o.0
                &&& completed == o.1
            }),
    {
        let ghost keys = account_keys@.map_values(|k: Pubkey| k@);
        let ghost time = stamp(block_time, clock);
        let ghost steps = instruction_steps(
            instructions@.map_values(|i: CompiledInstruction| i@),
            keys,
            tx_id@,
            meta.fee,
            time,
            slot,
        );
        let mut i: usize = 0;
        while i < instructions.len()
            invariant
                i <= instructions@.len(),
                steps.len() == instructions@.len(),
                keys == account_keys@.map_values(|k: Pubkey| k@),
                time == stamp(block_time, clock),
                forall|j: int|
                    0 <= j < instructions@.len() ==> #[trigger] steps[j] == instruction_outcome(
                        instructions@[j]@,
                        keys,
                        tx_id@,
                        meta.fee,
                        time,
                        slot,
                    ),
                run_all(steps.take(i as int)).1,
                views(out@) == views(old(out)@) + run_all(steps.take(i as int)).0,
            decreases instructions@.len() - i,
        {
            proof {
                lemma_run_all_step(steps, i as int);
            }
            let instruction = &instructions[i];
            let kind = parse_system_instruction(&instruction.data);
            assert(steps[i as int] == instruction_outcome(
                instruction@,
                keys,
                tx_id@,
                meta.fee,
                time,
                slot,
            ));
            let step_ok: bool = match kind {
                Some(SystemInstructionKind::Transfer { lamports }) => {
                    if !has_transfer_parties(instruction, account_keys.as_slice()) {
                        false
                    } else {
                        let tx_details = TransactionDetails {
                            tx_id,
                            instruction,
                            account_keys: account_keys.as_slice(),
                            lamports,
                            meta,
                            block_time,
                            slot,
                        };
                        match tx_details.into_transaction(clock) {
                            Some(transaction) => {
                                let notification = Notification::Transaction(transaction);
                                proof {
                                    lemma_views_push(out@, notification);
                                }
                                out.push(notification);
                                true
                            },
                            None => false,
                        }
                    }
                },
                Some(SystemInstructionKind::CreateAccount { lamports }) => {
                    if !has_created_account(instruction, account_keys.as_slice()) {
                        false
                    } else {
                        let account = Self::process_create_account(
                            instruction,
                            account_keys.as_slice(),
                            lamports,
                            slot,
                        );
                        let notification = Notification::Account(account);
                        proof {
                            lemma_views_push(out@, notification);
                        }
                        out.push(notification);
                        true
                    }
                },
                _ => true,
            };
            if !step_ok {
                proof {
                    assert(steps[i as int] == fail());
                    lemma_run_all_stops(steps, i + 1);
                    assert(run_all(steps).0 =~= run_all(steps.take(i as int)).0);
                    assert(steps == instruction_steps(
                        instructions@.map_values(|i: CompiledInstruction| i@),
                        account_keys@.map_values(|k: Pubkey| k@),
                        tx_id@,
                        meta.fee,
                        stamp(block_time, clock),
                        slot,
                    ));
                }
                return false;
            }
            i = i + 1;
        }
        proof {
            assert(steps.take(i as int) =~= steps);
        }
        true
    }

    /// Appends what a decoded transaction with its status produces: its
    /// instructions, then its balance changes; returns whether it was
    /// processed to its end.
    pub fn process_transaction(
        transaction: &VersionedTransaction,
        meta: &TransactionStatusMeta,
        block_time: Option<i64>,
        clock: Option<i64>,
        slot: u64,
        out: &mut Vec<Notification>,
    ) -> (completed: bool)
        ensures
            ({
                let o = transaction_outcome(transaction@, meta@, stamp(block_time, clock), slot);
                &&& views(final(out)@) == views(old(out)@) + o.0
                &&& completed == o.1
            }),
            forall|k: int|
                old(out)@.len() <= k < final(out)@.len() && (#[trigger] final(out)@[k]) is Transaction
                    ==> transaction@.signatures.len() > 0 && final(out)@[k]->Transaction_0.id@
                    == signature_text(transaction@.signatures[0]),
    {
        proof {
            law_transaction_id_is_first_signature(
                transaction@,
                meta@,
                stamp(block_time, clock),
                slot,
            );
        }
        if transaction.signatures.len() == 0 {
            return false;
        }
        let tx_id = signature_to_string(&transaction.signatures[0]);
        let (instructions, account_keys) = Self::get_transfer_details(transaction);
        let ghost mid = out@;
        let done = Self::process_instructions(
            &instructions,
            &account_keys,
            &tx_id,
            meta,
            block_time,
            clock,
            slot,
            out,
        );
        if !done {
            proof {
                assert(views(out@) =~= views(old(out)@) + transaction_outcome(
                    transaction@,
                    meta@,
                    stamp(block_time, clock),
                    slot,
                ).0);
            let o = transaction_outcome(transaction@, meta@, stamp(block_time, clock), slot);
            assert forall|k: int|
                old(out)@.len() <= k < out@.len() && (#[trigger] out@[k]) is Transaction implies transaction@.signatures.len()
                > 0 && out@[k]->Transaction_0.id@ == signature_text(transaction@.signatures[0]) by {
                assert(views(out@)[k] == out@[k]@);
                assert(views(out@)[k] == o.0[k - old(out)@.len()]);
            }
            }
            return false;
        }
        let completed = Self::update_account_balances(account_keys.as_slice(), meta, slot, out);
        proof {
            assert(views(out@) =~= views(old(out)@) + transaction_outcome(
                transaction@,
                meta@,
                stamp(block_time, clock),
                slot,
            ).0);
            let o = transaction_outcome(transaction@, meta@, stamp(block_time, clock), slot);
            assert forall|k: int|
                old(out)@.len() <= k < out@.len() && (#[trigger] out@[k]) is Transaction implies transaction@.signatures.len()
                > 0 && out@[k]->Transaction_0.id@ == signature_text(transaction@.signatures[0]) by {
                assert(views(out@)[k] == out@[k]@);
                assert(views(out@)[k] == o.0[k - old(out)@.len()]);
            }
        }
        completed
    }

    /// Processes a block at `slot`, with the clock's reading for transfers
    /// when the block carries no time: the notifications in delivery order,
    /// and `FailedToProcessBlock(slot)` where processing stopped short.
    pub fn process_block_at(block: &UiConfirmedBlock, slot: u64, clock: Option<i64>) -> (processed:
        BlockProcessing)
        ensures
            ({
                let o = block_outcome(block@, slot, clock);
                &&& views(processed.notifications@) == o.0
                &&& processed.status == status_of(o.1, slot)
            }),
    {
        let mut out: Vec<Notification> = Vec::new();
        assert(views(out@) =~= Seq::<NotificationView>::empty());
        match &block.transactions {
            None => BlockProcessing { notifications: out, status: Ok(()) },
            Some(txs) => {
                let ghost entries = txs@.map_values(|t: EncodedTransactionWithStatusMeta| t@);
                let ghost time = stamp(block.block_time, clock);
                let ghost steps = entry_steps(entries, time, slot);
                let mut i: usize = 0;
                while i < txs.len()
                    invariant
                        i <= txs@.len(),
                        steps.len() == txs@.len(),
                        time == stamp(block.block_time, clock),
                        forall|j: int|
                            0 <= j < txs@.len() ==> #[trigger] steps[j] == entry_outcome(
                                txs@[j]@,
                                time,
                                slot,
                            ),
                        steps == block_steps_of(block@, slot, clock),
                        block@.transactions is Some,
                        run_all(steps.take(i as int)).1,
                        views(out@) == run_all(steps.take(i as int)).0,
                    decreases txs@.len() - i,
                {
                    proof {
                        lemma_run_all_step(steps, i as int);
                    }
                    let tx = &txs[i];
                    let ghost before = out@;
                    let done = match decode_transaction(&tx.transaction) {
                        Some(decode_tx) => match &tx.meta {
                            Some(meta) => Self::process_transaction(
                                &decode_tx,
                                meta,
                                block.block_time,
                                clock,
                                slot,
                                &mut out,
                            ),
                            None => true,
                        },
                        None => true,
                    };
                    proof {
                        assert(steps[i as int] == entry_outcome(tx@, time, slot));
                        assert(views(out@) =~= views(before) + steps[i as int].0);
                        assert(done == steps[i as int].1);
                    }
                    if !done {
                        proof {
                            lemma_run_all_stops(steps, i + 1);
                            assert(views(out@) == run_all(steps.take(i + 1)).0);
                            assert(block_outcome(block@, slot, clock) == run_all(steps));
                        }
                        return BlockProcessing {
                            notifications: out,
                            status: Err(AggregatorError::FailedToProcessBlock(slot)),
                        };
                    }
                    i = i + 1;
                }
                proof {
                    assert(steps.take(i as int) =~= steps);
                }
                BlockProcessing { notifications: out, status: Ok(()) }
            },
        }
    }

    /// Processes a block at `slot`: reads the clock once, when the block
    /// carries no time, then proceeds as [`Self::process_block_at`] with that
    /// reading, which stamps every transfer of the block. What the clock read
    /// is not known; the contract holds whatever it was.
    pub fn process_block(block: &UiConfirmedBlock, slot: u64) -> (processed: BlockProcessing)
        ensures
            exists|clock: Option<i64>|
                {
                    let o = #[trigger] block_outcome(block@, slot, clock);
                    &&& views(processed.notifications@) == o.0
                    &&& processed.status == status_of(o.1, slot)
                },
            block.block_time is Some ==> ({
                let o = block_outcome(block@, slot, None);
                &&& views(processed.notifications@) == o.0
                &&& processed.status == status_of(o.1, slot)
            }),
    {
        let clock: Option<i64> = if block.block_time.is_some() {
            None
        } else {
            match clock::since_unix_epoch(&clock::now()) {
                Some(elapsed) => Some(clock::whole_seconds(&elapsed) as i64),
                None => None,
            }
        };
        Self::process_block_at(block, slot, clock)
    }
}

} // verus!
