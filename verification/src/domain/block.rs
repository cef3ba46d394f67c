//! The parts of a confirmed Solana block that the block processor reads.

use crate::domain::models::{Pubkey, Signature};
use vstd::prelude::*;

verus! {

/// An instruction as it stands in a transaction message: the index of the
/// program that runs it, indices into the message's account keys, and its data.
#[derive(Debug)]
pub struct CompiledInstruction {
    pub program_id_index: u8,
    pub accounts: Vec<u8>,
    pub data: Vec<u8>,
}

impl Clone for CompiledInstruction {
    fn clone(&self) -> (copy: Self)
        ensures
            copy@ == self@,
    {
        CompiledInstruction {
            program_id_index: self.program_id_index,
            accounts: self.accounts.clone(),
            data: self.data.clone(),
        }
    }
}

pub struct CompiledInstructionView {
    pub program_id_index: u8,
    pub accounts: Seq<u8>,
    pub data: Seq<u8>,
}

impl View for CompiledInstruction {
    type V = CompiledInstructionView;

    open spec fn view(&self) -> CompiledInstructionView {
        CompiledInstructionView {
            program_id_index: self.program_id_index,
            accounts: self.accounts@,
            data: self.data@,
        }
    }
}

/// The account keys and instructions of a message.
#[derive(Debug)]
pub struct Message {
    pub account_keys: Vec<Pubkey>,
    pub instructions: Vec<CompiledInstruction>,
}

pub struct MessageView {
    pub account_keys: Seq<Seq<u8>>,
    pub instructions: Seq<CompiledInstructionView>,
}

impl View for Message {
    type V = MessageView;

    open spec fn view(&self) -> MessageView {
        MessageView {
            account_keys: self.account_keys@.map_values(|k: Pubkey| k@),
            instructions: self.instructions@.map_values(|i: CompiledInstruction| i@),
        }
    }
}

/// A legacy or a version-0 message.
#[derive(Debug)]
pub enum VersionedMessage {
    Legacy(Message),
    V0(Message),
}

pub enum VersionedMessageView {
    Legacy(MessageView),
    V0(MessageView),
}

impl View for VersionedMessage {
    type V = VersionedMessageView;

    open spec fn view(&self) -> VersionedMessageView {
        match self {
            VersionedMessage::Legacy(m) => VersionedMessageView::Legacy(m@),
            VersionedMessage::V0(m) => VersionedMessageView::V0(m@),
        }
    }
}

/// A decoded transaction: its signatures and its message.
#[derive(Debug)]
pub struct VersionedTransaction {
    pub signatures: Vec<Signature>,
    pub message: VersionedMessage,
}

pub struct VersionedTransactionView {
    pub signatures: Seq<Seq<u8>>,
    pub message: VersionedMessageView,
}

impl View for VersionedTransaction {
    type V = VersionedTransactionView;

    open spec fn view(&self) -> VersionedTransactionView {
        VersionedTransactionView {
            signatures: self.signatures@.map_values(|s: Signature| s@),
            message: self.message@,
        }
    }
}

/// The text encoding of a binary transaction.
#[derive(Clone, Copy, Debug, PartialEq, Eq, Structural)]
pub enum TransactionBinaryEncoding {
    Base58,
    Base64,
}

/// A transaction as a block delivers it. Only the binary forms can be
/// decoded; the JSON forms carry no raw transaction.
#[derive(Debug)]
pub enum EncodedTransaction {
    LegacyBinary(String),
    Binary(String, TransactionBinaryEncoding),
    Json,
    Accounts,
}

pub enum EncodedTransactionView {
    LegacyBinary(Seq<char>),
    Binary(Seq<char>, TransactionBinaryEncoding),
    Json,
    Accounts,
}

impl View for EncodedTransaction {
    type V = EncodedTransactionView;

    open spec fn view(&self) -> EncodedTransactionView {
        match self {
            EncodedTransaction::LegacyBinary(blob) => EncodedTransactionView::LegacyBinary(blob@),
            EncodedTransaction::Binary(blob, enc) => EncodedTransactionView::Binary(blob@, *enc),
            EncodedTransaction::Json => EncodedTransactionView::Json,
            EncodedTransaction::Accounts => EncodedTransactionView::Accounts,
        }
    }
}

/// The status of an executed transaction: its fee and the balance of each
/// account key before and after it ran.
#[derive(Debug)]
pub struct TransactionStatusMeta {
    pub fee: u64,
    pub pre_balances: Vec<u64>,
    pub post_balances: Vec<u64>,
}

pub struct TransactionStatusMetaView {
    pub fee: u64,
    pub pre_balances: Seq<u64>,
    pub post_balances: Seq<u64>,
}

impl View for TransactionStatusMeta {
    type V = TransactionStatusMetaView;

    open spec fn view(&self) -> TransactionStatusMetaView {
        TransactionStatusMetaView {
            fee: self.fee,
            pre_balances: self.pre_balances@,
            post_balances: self.post_balances@,
        }
    }
}

/// A transaction of a block together with its status, if the node gave one.
#[derive(Debug)]
pub struct EncodedTransactionWithStatusMeta {
    pub transaction: EncodedTransaction,
    pub meta: Option<TransactionStatusMeta>,
}

pub struct EncodedTransactionWithStatusMetaView {
    pub transaction: EncodedTransactionView,
    pub meta: Option<TransactionStatusMetaView>,
}

impl View for EncodedTransactionWithStatusMeta {
    type V = EncodedTransactionWithStatusMetaView;

    open spec fn view(&self) -> EncodedTransactionWithStatusMetaView {
        EncodedTransactionWithStatusMetaView {
            transaction: self.transaction@,
            meta: match self.meta {
                Some(m) => Some(m@),
                None => None,
            },
        }
    }
}

/// A confirmed block: its transactions, when the node sent them, and the
/// time at which it was produced, when known.
#[derive(Debug)]
pub struct UiConfirmedBlock {
    pub transactions: Option<Vec<EncodedTransactionWithStatusMeta>>,
    pub block_time: Option<i64>,
}

pub struct UiConfirmedBlockView {
    pub transactions: Option<Seq<EncodedTransactionWithStatusMetaView>>,
    pub block_time: Option<i64>,
}

impl View for UiConfirmedBlock {
    type V = UiConfirmedBlockView;

    open spec fn view(&self) -> UiConfirmedBlockView {
        UiConfirmedBlockView {
            transactions: match self.transactions {
                Some(txs) => Some(txs@.map_values(|t: EncodedTransactionWithStatusMeta| t@)),
                None => None,
            },
            block_time: self.block_time,
        }
    }
}

/// The system-program instructions that the aggregator tells apart.
#[derive(Clone, Copy, Debug, PartialEq, Eq, Structural)]
pub enum SystemInstructionKind {
    /// `CreateAccount`, with the lamports given to the new account.
    CreateAccount { lamports: u64 },
    /// `Transfer`, with the lamports moved.
    Transfer { lamports: u64 },
    /// Any other system instruction.
    Other,
}

} // verus!
