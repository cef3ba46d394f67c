use crate::domain::errors::DataStorageError;
use vstd::prelude::*;

verus! {

/// A 32-byte account address.
#[derive(Clone, Copy, Debug)]
pub struct Pubkey {
    pub bytes: [u8; 32],
}

impl View for Pubkey {
    type V = Seq<u8>;

    open spec fn view(&self) -> Seq<u8> {
        self.bytes@
    }
}

impl Pubkey {
    /// Builds an address from its raw bytes.
    pub fn new_from_array(bytes: [u8; 32]) -> (key: Pubkey)
        ensures
            key@ == bytes@,
    {
        Pubkey { bytes }
    }

    /// Byte-wise comparison of two addresses.
    pub fn equals(&self, other: &Pubkey) -> (same: bool)
        ensures
            same == (self@ == other@),
    {
        let mut i: usize = 0;
        while i < 32
            invariant
                i <= 32,
                forall|j: int| 0 <= j < i ==> self@[j] == other@[j],
            decreases 32 - i,
        {
            if self.bytes[i] != other.bytes[i] {
                return false;
            }
            i = i + 1;
        }
        assert(self@ =~= other@);
        true
    }
}

/// A 64-byte transaction signature.
#[derive(Clone, Copy, Debug)]
pub struct Signature {
    pub bytes: [u8; 64],
}

impl View for Signature {
    type V = Seq<u8>;

    open spec fn view(&self) -> Seq<u8> {
        self.bytes@
    }
}

/// A transfer of lamports observed on chain.
#[derive(Debug)]
pub struct Transaction {
    pub id: String,
    pub sender: Pubkey,
    pub receiver: Pubkey,
    pub amount: u64,
    pub fee: u64,
    pub slot: u64,
    pub timestamp: i64,
}

/// The mathematical content of a [`Transaction`].
pub struct TransactionView {
    pub id: Seq<char>,
    pub sender: Seq<u8>,
    pub receiver: Seq<u8>,
    pub amount: u64,
    pub fee: u64,
    pub slot: u64,
    pub timestamp: i64,
}

impl View for Transaction {
    type V = TransactionView;

    open spec fn view(&self) -> TransactionView {
        TransactionView {
            id: self.id@,
            sender: self.sender@,
            receiver: self.receiver@,
            amount: self.amount,
            fee: self.fee,
            slot: self.slot,
            timestamp: self.timestamp,
        }
    }
}

impl Clone for Transaction {
    fn clone(&self) -> (copy: Self)
        ensures
            copy@ == self@,
    {
        Transaction {
            id: self.id.clone(),
            sender: self.sender,
            receiver: self.receiver,
            amount: self.amount,
            fee: self.fee,
            slot: self.slot,
            timestamp: self.timestamp,
        }
    }
}

/// The latest known balance of an account.
#[derive(Debug)]
pub struct Account {
    pub address: Pubkey,
    pub balance: u64,
    pub last_slot_updated: u64,
}

/// The mathematical content of an [`Account`].
pub struct AccountView {
    pub address: Seq<u8>,
    pub balance: u64,
    pub last_slot_updated: u64,
}

impl View for Account {
    type V = AccountView;

    open spec fn view(&self) -> AccountView {
        AccountView {
            address: self.address@,
            balance: self.balance,
            last_slot_updated: self.last_slot_updated,
        }
    }
}

impl Clone for Account {
    fn clone(&self) -> (copy: Self)
        ensures
            copy@ == self@,
    {
        Account {
            address: self.address,
            balance: self.balance,
            last_slot_updated: self.last_slot_updated,
        }
    }
}

/// What the block processor hands to a notifier: either a transfer or an
/// account whose balance is now known.
#[derive(Debug)]
pub enum Notification {
    Transaction(Transaction),
    Account(Account),
}

/// The mathematical content of a [`Notification`].
pub enum NotificationView {
    Transaction(TransactionView),
    Account(AccountView),
}

impl View for Notification {
    type V = NotificationView;

    open spec fn view(&self) -> NotificationView {
        match self {
            Notification::Transaction(t) => NotificationView::Transaction(t@),
            Notification::Account(a) => NotificationView::Account(a@),
        }
    }
}

/// A place where transactions and accounts are kept.
pub trait DataStorage {
    fn store_transaction(&mut self, transaction: Transaction) -> Result<(), DataStorageError>;

    fn store_account(&mut self, account: Account) -> Result<(), DataStorageError>;
}

} // verus!
