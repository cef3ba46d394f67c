//! The application: the store that the aggregator fills and that queries read.

use crate::domain::calendar::{date_day_number, utc_day};
use crate::domain::errors::DataStorageError;
use crate::domain::models::{Account, Pubkey, Transaction, TransactionView};
use crate::infrastructure::memory::{
    account_views, lists_accounts, lists_transactions, transaction_views, AccountTable,
    InMemoryDatabase, TransactionTable,
};
use vstd::prelude::*;

verus! {

/// The application and its store.
pub struct App<D> {
    pub database: D,
}

impl App<InMemoryDatabase> {
    /// An application with an empty in-memory store.
    pub fn new() -> (app: Self)
        ensures
            app.database@.transactions == TransactionTable::empty(),
            app.database@.accounts == AccountTable::empty(),
    {
        App { database: InMemoryDatabase::new() }
    }

    /// Every stored transaction.
    pub fn get_transactions(&self) -> (found: Result<Vec<Transaction>, DataStorageError>)
        ensures
            found matches Ok(list) && lists_transactions(
                transaction_views(list@),
                self.database@.transactions,
                |t: TransactionView| true,
            ),
    {
        self.database.get_transactions()
    }

    /// Every stored account.
    pub fn get_accounts(&self) -> (found: Result<Vec<Account>, DataStorageError>)
        ensures
            found matches Ok(list) && lists_accounts(account_views(list@), self.database@.accounts),
    {
        self.database.get_accounts()
    }

    /// The transaction with this id; `TransactionNotFound` where none is stored.
    pub fn get_transaction(&self, id: String) -> (found: Result<Transaction, DataStorageError>)
        ensures
            self.database@.transactions.contains_key(id@) ==> (found matches Ok(t) && t@
                == self.database@.transactions[id@]),
            !self.database@.transactions.contains_key(id@) ==> found == Err::<
                Transaction,
                DataStorageError,
            >(DataStorageError::TransactionNotFound),
    {
        self.database.get_transaction(id)
    }

    /// The stored transactions sent by `sender`.
    pub fn get_transactions_by_sender(&self, sender: Pubkey) -> (found: Result<
        Vec<Transaction>,
        DataStorageError,
    >)
        ensures
            found matches Ok(list) && lists_transactions(
                transaction_views(list@),
                self.database@.transactions,
                |t: TransactionView| t.sender == sender@,
            ),
    {
        self.database.get_transactions_by_sender(sender)
    }

    /// The stored transactions received by `receiver`.
    pub fn get_transactions_by_receiver(&self, receiver: Pubkey) -> (found: Result<
        Vec<Transaction>,
        DataStorageError,
    >)
        ensures
            found matches Ok(list) && lists_transactions(
                transaction_views(list@),
                self.database@.transactions,
                |t: TransactionView| t.receiver == receiver@,
            ),
    {
        self.database.get_transactions_by_receiver(receiver)
    }

    /// The stored transactions of a slot.
    pub fn get_transactions_by_slot(&self, slot: u64) -> (found: Result<
        Vec<Transaction>,
        DataStorageError,
    >)
        ensures
            found matches Ok(list) && lists_transactions(
                transaction_views(list@),
                self.database@.transactions,
                |t: TransactionView| t.slot == slot,
            ),
    {
        self.database.get_transactions_by_slot(slot)
    }

    /// The stored transactions stamped on the UTC day that `date` writes as
    /// `YYYY-MM-DD`; none where it writes no valid date.
    pub fn get_transactions_by_date(&self, date: String) -> (found: Result<
        Vec<Transaction>,
        DataStorageError,
    >)
        ensures
            found matches Ok(list) && lists_transactions(
                transaction_views(list@),
                self.database@.transactions,
                |t: TransactionView| date_day_number(date@) == Some(utc_day(t.timestamp as int)),
            ),
    {
        self.database.get_transactions_by_date(date)
    }
}

} // verus!
