//! An in-memory store of transactions and accounts, kept in two `DashMap`s:
//! transactions by their id, accounts by the base-58 text of their address.
//! Storing a record replaces the one kept under the same key.

use crate::domain::calendar::{date_day_number, parse_day_number, utc_day, utc_day_of};
use crate::domain::errors::DataStorageError;
use crate::domain::models::{
    Account, AccountView, DataStorage, Pubkey, Transaction, TransactionView,
};
use crate::infrastructure::solana_codec::{pubkey_text, pubkey_to_string};
use dashmap::DashMap;
use vstd::prelude::*;

verus! {

/// The concurrent map of the `dashmap` crate. The library changes one only
/// through `&mut`, so that what it holds is a function of the value.
#[verifier::external_type_specification]
#[verifier::external_body]
#[verifier::reject_recursive_types(K)]
#[verifier::reject_recursive_types(V)]
#[verifier::reject_recursive_types(S)]
pub struct ExDashMap<K, V, S>(DashMap<K, V, S>);

/// Transactions by the text of their key.
pub type TransactionTable = Map<Seq<char>, TransactionView>;

/// Accounts by the text of their key.
pub type AccountTable = Map<Seq<char>, AccountView>;

/// The entries of a map of transactions, each key by its text.
pub uninterp spec fn transaction_entries(map: DashMap<String, Transaction>) -> Map<
    Seq<char>,
    TransactionView,
>;

/// The entries of a map of accounts, each key by its text.
pub uninterp spec fn account_entries(map: DashMap<String, Account>) -> Map<Seq<char>, AccountView>;

/// `DashMap::new` for transactions: an empty map.
#[verifier::external_body]
fn new_transaction_map() -> (fresh: DashMap<String, Transaction>)
    ensures
        transaction_entries(fresh) == TransactionTable::empty(),
{
    DashMap::new()
}

/// `DashMap::new` for accounts: an empty map.
#[verifier::external_body]
fn new_account_map() -> (fresh: DashMap<String, Account>)
    ensures
        account_entries(fresh) == AccountTable::empty(),
{
    DashMap::new()
}

/// `DashMap::insert`: the key now holds the value; every other entry stays.
#[verifier::external_body]
fn insert_transaction_entry(map: &mut DashMap<String, Transaction>, key: String, value: Transaction)
    ensures
        transaction_entries(*final(map)) == transaction_entries(*old(map)).insert(key@, value@),
{
    map.insert(key, value);
}

/// `DashMap::insert`: the key now holds the value; every other entry stays.
#[verifier::external_body]
fn insert_account_entry(map: &mut DashMap<String, Account>, key: String, value: Account)
    ensures
        account_entries(*final(map)) == account_entries(*old(map)).insert(key@, value@),
{
    map.insert(key, value);
}

/// `DashMap::get`, the value copied out: the value under the key, if any.
#[verifier::external_body]
fn get_transaction_entry(map: &DashMap<String, Transaction>, key: &String) -> (found: Option<
    Transaction,
>)
    ensures
        found is Some <==> transaction_entries(*map).contains_key(key@),
        found matches Some(t) ==> t@ == transaction_entries(*map)[key@],
{
    map.get(key).map(|entry| entry.value().clone())
}

/// `DashMap::iter`, each entry copied out: every entry once, in the map's
/// own order, of which nothing is claimed.
#[verifier::external_body]
fn list_transaction_entries(map: &DashMap<String, Transaction>) -> (entries: Vec<
    (String, Transaction),
>)
    ensures
        forall|i: int|
            0 <= i < entries@.len() ==> {
                &&& transaction_entries(*map).contains_key(#[trigger] entries@[i].0@)
                &&& transaction_entries(*map)[entries@[i].0@] == entries@[i].1@
            },
        forall|i: int, j: int|
            0 <= i < j < entries@.len() ==> #[trigger] entries@[i].0@ != #[trigger] entries@[j].0@,
        forall|k: Seq<char>|
            transaction_entries(*map).contains_key(k) ==> exists|i: int|
                0 <= i < entries@.len() && #[trigger] entries@[i].0@ == k,
{
    map.iter().map(|entry| (entry.key().clone(), entry.value().clone())).collect()
}

/// `DashMap::iter`, each entry copied out: every entry once, in the map's
/// own order, of which nothing is claimed.
#[verifier::external_body]
fn list_account_entries(map: &DashMap<String, Account>) -> (entries: Vec<(String, Account)>)
    ensures
        forall|i: int|
            0 <= i < entries@.len() ==> {
                &&& account_entries(*map).contains_key(#[trigger] entries@[i].0@)
                &&& account_entries(*map)[entries@[i].0@] == entries@[i].1@
            },
        forall|i: int, j: int|
            0 <= i < j < entries@.len() ==> #[trigger] entries@[i].0@ != #[trigger] entries@[j].0@,
        forall|k: Seq<char>|
            account_entries(*map).contains_key(k) ==> exists|i: int|
                0 <= i < entries@.len() && #[trigger] entries@[i].0@ == k,
{
    map.iter().map(|entry| (entry.key().clone(), entry.value().clone())).collect()
}

/// Which stored transactions a query asks for.
enum Selection {
    All,
    Sender(Pubkey),
    Receiver(Pubkey),
    Slot(u64),
    Day(i64),
}

impl Selection {
    spec fn keeps(&self, t: TransactionView) -> bool {
        match self {
            Selection::All => true,
            Selection::Sender(sender) => t.sender == sender@,
            Selection::Receiver(receiver) => t.receiver == receiver@,
            Selection::Slot(slot) => t.slot == *slot,
            Selection::Day(day) => utc_day(t.timestamp as int) == *day as int,
        }
    }

    fn matches(&self, t: &Transaction) -> (kept: bool)
        ensures
            kept == self.keeps(t@),
    {
        match self {
            Selection::All => true,
            Selection::Sender(sender) => t.sender.equals(sender),
            Selection::Receiver(receiver) => t.receiver.equals(receiver),
            Selection::Slot(slot) => t.slot == *slot,
            Selection::Day(day) => utc_day_of(t.timestamp) == *day,
        }
    }
}

/// The store of transactions and accounts.
pub struct InMemoryDatabase {
    transactions: DashMap<String, Transaction>,
    accounts: DashMap<String, Account>,
}

/// What the store holds: transactions by id, accounts by address text.
pub struct StoreView {
    pub transactions: Map<Seq<char>, TransactionView>,
    pub accounts: Map<Seq<char>, AccountView>,
}

impl View for InMemoryDatabase {
    type V = StoreView;

    closed spec fn view(&self) -> StoreView {
        StoreView {
            transactions: transaction_entries(self.transactions),
            accounts: account_entries(self.accounts),
        }
    }
}

/// Every transaction is kept under its id, every account under the text of
/// its address.
pub open spec fn store_keys_match(store: StoreView) -> bool {
    &&& forall|k: Seq<char>| #[trigger]
        store.transactions.contains_key(k) ==> store.transactions[k].id == k
    &&& forall|k: Seq<char>| #[trigger]
        store.accounts.contains_key(k) ==> pubkey_text(store.accounts[k].address) == k
}

/// `found` lists, once each, the stored transactions that satisfy `wanted`,
/// in some order.
pub open spec fn lists_transactions(
    found: Seq<TransactionView>,
    stored: Map<Seq<char>, TransactionView>,
    wanted: spec_fn(TransactionView) -> bool,
) -> bool {
    &&& forall|i: int|
        0 <= i < found.len() ==> {
            &&& stored.contains_key(#[trigger] found[i].id)
            &&& stored[found[i].id] == found[i]
            &&& wanted(found[i])
        }
    &&& forall|i: int, j: int|
        0 <= i < j < found.len() ==> #[trigger] found[i].id != #[trigger] found[j].id
    &&& forall|k: Seq<char>|
        #[trigger] stored.contains_key(k) && wanted(stored[k]) ==> exists|i: int|
            0 <= i < found.len() && #[trigger] found[i].id == k
}

/// `found` lists, once each, the stored accounts, in some order.
pub open spec fn lists_accounts(found: Seq<AccountView>, stored: Map<Seq<char>, AccountView>) -> bool {
    &&& forall|i: int|
        0 <= i < found.len() ==> {
            &&& stored.contains_key(pubkey_text(#[trigger] found[i].address))
            &&& stored[pubkey_text(found[i].address)] == found[i]
        }
    &&& forall|i: int, j: int|
        0 <= i < j < found.len() ==> pubkey_text(#[trigger] found[i].address) != pubkey_text(
            #[trigger] found[j].address,
        )
    &&& forall|k: Seq<char>|
        #[trigger] stored.contains_key(k) ==> exists|i: int|
            0 <= i < found.len() && pubkey_text(#[trigger] found[i].address) == k
}

pub open spec fn transaction_views(s: Seq<Transaction>) -> Seq<TransactionView> {
    s.map_values(|t: Transaction| t@)
}

pub open spec fn account_views(s: Seq<Account>) -> Seq<AccountView> {
    s.map_values(|a: Account| a@)
}

impl InMemoryDatabase {
    /// Every record is kept under its own key.
    #[verifier::type_invariant]
    spec fn keys_match(self) -> bool {
        store_keys_match(self@)
    }

    /// An empty store.
    pub fn new() -> (store: InMemoryDatabase)
        ensures
            store@.transactions == TransactionTable::empty(),
            store@.accounts == AccountTable::empty(),
    {
        InMemoryDatabase { transactions: new_transaction_map(), accounts: new_account_map() }
    }

    /// Every stored transaction that the selection keeps, once each, in the
    /// map's order.
    fn select_transactions(&self, selection: &Selection) -> (found: Vec<Transaction>)
        ensures
            lists_transactions(
                transaction_views(found@),
                self@.transactions,
                |t: TransactionView| selection.keeps(t),
            ),
    {
        proof {
            use_type_invariant(self);
        }
        let ghost wanted = |t: TransactionView| selection.keeps(t);
        let entries = list_transaction_entries(&self.transactions);
        let ghost stored = self@.transactions;
        let mut found: Vec<Transaction> = Vec::new();
        let ghost mut from: Seq<int> = Seq::empty();
        let mut i: usize = 0;
        while i < entries.len()
            invariant
                i <= entries@.len(),
                stored == self@.transactions,
                store_keys_match(self@),
                wanted == (|t: TransactionView| selection.keeps(t)),
                forall|a: int|
                    0 <= a < entries@.len() ==> {
                        &&& stored.contains_key(#[trigger] entries@[a].0@)
                        &&& stored[entries@[a].0@] == entries@[a].1@
                    },
                forall|a: int, b: int|
                    0 <= a < b < entries@.len() ==> #[trigger] entries@[a].0@
                        != #[trigger] entries@[b].0@,
                forall|k: Seq<char>|
                    stored.contains_key(k) ==> exists|c: int|
                        0 <= c < entries@.len() && #[trigger] entries@[c].0@ == k,
                from.len() == found@.len(),
                forall|a: int|
                    0 <= a < found@.len() ==> {
                        &&& 0 <= #[trigger] from[a] < i
                        &&& found@[a]@ == entries@[from[a]].1@
                        &&& wanted(found@[a]@)
                    },
                forall|a: int, b: int| 0 <= a < b < found@.len() ==> #[trigger] from[a] < #[trigger] from[b],
                forall|a: int|
                    0 <= a < i && wanted(#[trigger] entries@[a].1@) ==> exists|b: int|
                        0 <= b < found@.len() && from[b] == a,
            decreases entries@.len() - i,
        {
            let entry = &entries[i];
            let ghost old_from = from;
            let ghost old_len = found@.len();
            let kept = selection.matches(&entry.1);
            assert(wanted(entry.1@) == selection.keeps(entry.1@));
            if kept {
                let copy = entry.1.clone();
                found.push(copy);
                proof {
                    from = from.push(i as int);
                }
            }
            proof {
                assert forall|a: int|
                    0 <= a < i + 1 && wanted(#[trigger] entries@[a].1@) implies exists|b: int|
                    0 <= b < found@.len() && from[b] == a by {
                    if a < i {
                        let b = choose|b: int| 0 <= b < old_len && old_from[b] == a;
                        assert(from[b] == a);
                    } else {
                        assert(from[old_len as int] == a);
                    }
                }
            }
            i = i + 1;
        }
        proof {
            let fv = transaction_views(found@);
            assert forall|a: int| 0 <= a < fv.len() implies {
                &&& stored.contains_key(#[trigger] fv[a].id)
                &&& stored[fv[a].id] == fv[a]
                &&& wanted(fv[a])
            } by {
                let e = entries@[from[a]];
                assert(stored[e.0@].id == e.0@);
            }
            assert forall|a: int, b: int| 0 <= a < b < fv.len() implies #[trigger] fv[a].id
                != #[trigger] fv[b].id by {
                let ea = entries@[from[a]];
                let eb = entries@[from[b]];
                assert(stored[ea.0@].id == ea.0@);
                assert(stored[eb.0@].id == eb.0@);
            }
            assert forall|k: Seq<char>| #[trigger]
                stored.contains_key(k) && wanted(stored[k]) implies exists|a: int|
                0 <= a < fv.len() && #[trigger] fv[a].id == k by {
                let c = choose|c: int| 0 <= c < entries@.len() && #[trigger] entries@[c].0@ == k;
                assert(wanted(entries@[c].1@));
                let b = choose|b: int| 0 <= b < found@.len() && from[b] == c;
                assert(fv[b].id == k);
            }
        }
        found
    }
}

impl InMemoryDatabase {
    /// Every stored transaction, once each, in the map's order.
    pub fn get_transactions(&self) -> (found: Result<Vec<Transaction>, DataStorageError>)
        ensures
            found matches Ok(list) && lists_transactions(
                transaction_views(list@),
                self@.transactions,
                |t: TransactionView| true,
            ),
    {
        let selection = Selection::All;
        let found = self.select_transactions(&selection);
        assert((|t: TransactionView| selection.keeps(t)) =~= (|t: TransactionView| true));
        Ok(found)
    }

    /// The transaction stored under `id`; `TransactionNotFound` where there is none.
    pub fn get_transaction(&self, id: String) -> (found: Result<Transaction, DataStorageError>)
        ensures
            self@.transactions.contains_key(id@) ==> (found matches Ok(t) && t@
                == self@.transactions[id@]),
            !self@.transactions.contains_key(id@) ==> found == Err::<Transaction, DataStorageError>(
                DataStorageError::TransactionNotFound,
            ),
    {
        match get_transaction_entry(&self.transactions, &id) {
            Some(t) => Ok(t),
            None => Err(DataStorageError::TransactionNotFound),
        }
    }

    /// The stored transactions sent by `sender`, once each, in the map's order.
    pub fn get_transactions_by_sender(&self, sender: Pubkey) -> (found: Result<
        Vec<Transaction>,
        DataStorageError,
    >)
        ensures
            found matches Ok(list) && lists_transactions(
                transaction_views(list@),
                self@.transactions,
                |t: TransactionView| t.sender == sender@,
            ),
    {
        let selection = Selection::Sender(sender);
        let found = self.select_transactions(&selection);
        assert((|t: TransactionView| selection.keeps(t)) =~= (|t: TransactionView| t.sender == sender@));
        Ok(found)
    }

    /// The stored transactions received by `receiver`, once each, in the map's order.
    pub fn get_transactions_by_receiver(&self, receiver: Pubkey) -> (found: Result<
        Vec<Transaction>,
        DataStorageError,
    >)
        ensures
            found matches Ok(list) && lists_transactions(
                transaction_views(list@),
                self@.transactions,
                |t: TransactionView| t.receiver == receiver@,
            ),
    {
        let selection = Selection::Receiver(receiver);
        let found = self.select_transactions(&selection);
        assert((|t: TransactionView| selection.keeps(t)) =~= (|t: TransactionView| t.receiver == receiver@));
        Ok(found)
    }

    /// The stored transactions of slot `slot`, once each, in the map's order.
    pub fn get_transactions_by_slot(&self, slot: u64) -> (found: Result<
        Vec<Transaction>,
        DataStorageError,
    >)
        ensures
            found matches Ok(list) && lists_transactions(
                transaction_views(list@),
                self@.transactions,
                |t: TransactionView| t.slot == slot,
            ),
    {
        let selection = Selection::Slot(slot);
        let found = self.select_transactions(&selection);
        assert((|t: TransactionView| selection.keeps(t)) =~= (|t: TransactionView| t.slot == slot));
        Ok(found)
    }

    /// The stored transactions stamped on the UTC day that `date` writes as
    /// `YYYY-MM-DD`, once each, in the map's order; none where `date` writes
    /// no valid date.
    pub fn get_transactions_by_date(&self, date: String) -> (found: Result<
        Vec<Transaction>,
        DataStorageError,
    >)
        ensures
            found matches Ok(list) && lists_transactions(
                transaction_views(list@),
                self@.transactions,
                |t: TransactionView| date_day_number(date@) == Some(utc_day(t.timestamp as int)),
            ),
    {
        match parse_day_number(date.as_str()) {
            Some(day) => {
                let selection = Selection::Day(day);
                let found = self.select_transactions(&selection);
                assert((|t: TransactionView| selection.keeps(t)) =~= (|t: TransactionView|
                    date_day_number(date@) == Some(utc_day(t.timestamp as int))));
                Ok(found)
            },
            None => {
                let found: Vec<Transaction> = Vec::new();
                assert(transaction_views(found@) =~= Seq::<TransactionView>::empty());
                Ok(found)
            },
        }
    }

    /// Every stored account, once each, in the map's order.
    pub fn get_accounts(&self) -> (found: Result<Vec<Account>, DataStorageError>)
        ensures
            found matches Ok(list) && lists_accounts(account_views(list@), self@.accounts),
    {
        proof {
            use_type_invariant(self);
        }
        let entries = list_account_entries(&self.accounts);
        let ghost stored = self@.accounts;
        let mut found: Vec<Account> = Vec::new();
        let mut i: usize = 0;
        while i < entries.len()
            invariant
                i <= entries@.len(),
                stored == self@.accounts,
                store_keys_match(self@),
                forall|a: int|
                    0 <= a < entries@.len() ==> {
                        &&& stored.contains_key(#[trigger] entries@[a].0@)
                        &&& stored[entries@[a].0@] == entries@[a].1@
                    },
                found@.len() == i,
                forall|a: int| 0 <= a < i ==> #[trigger] found@[a]@ == entries@[a].1@,
            decreases entries@.len() - i,
        {
            let copy = entries[i].1.clone();
            found.push(copy);
            i = i + 1;
        }
        proof {
            let fv = account_views(found@);
            assert forall|a: int| 0 <= a < fv.len() implies {
                &&& stored.contains_key(pubkey_text(#[trigger] fv[a].address))
                &&& stored[pubkey_text(fv[a].address)] == fv[a]
            } by {
                let e = entries@[a];
                assert(pubkey_text(stored[e.0@].address) == e.0@);
            }
            assert forall|a: int, b: int| 0 <= a < b < fv.len() implies pubkey_text(
                #[trigger] fv[a].address,
            ) != pubkey_text(#[trigger] fv[b].address) by {
                let ea = entries@[a];
                let eb = entries@[b];
                assert(pubkey_text(stored[ea.0@].address) == ea.0@);
                assert(pubkey_text(stored[eb.0@].address) == eb.0@);
            }
            assert forall|k: Seq<char>| #[trigger] stored.contains_key(k) implies exists|a: int|
                0 <= a < fv.len() && pubkey_text(#[trigger] fv[a].address) == k by {
                let c = choose|c: int| 0 <= c < entries@.len() && #[trigger] entries@[c].0@ == k;
                assert(pubkey_text(fv[c].address) == k);
            }
        }
        Ok(found)
    }
}

impl DataStorage for InMemoryDatabase {
    /// Keeps the transaction under its id, replacing any kept there before.
    fn store_transaction(&mut self, transaction: Transaction) -> (stored: Result<(), DataStorageError>)
        ensures
            stored is Ok,
            final(self)@.transactions == old(self)@.transactions.insert(
                transaction@.id,
                transaction@,
            ),
            final(self)@.accounts == old(self)@.accounts,
    {
        proof {
            use_type_invariant(&*self);
        }
        let key = transaction.id.clone();
        let ghost before = self@;
        assert(store_keys_match(before));
        assert(before.accounts == account_entries(self.accounts));
        // The map is taken out while it changes, so that the store never
        // holds a record under another key.
        let mut map = new_transaction_map();
        assert(store_keys_match(
            StoreView { transactions: transaction_entries(map), accounts: account_entries(self.accounts) },
        ));
        std::mem::swap(&mut map, &mut self.transactions);
        insert_transaction_entry(&mut map, key, transaction);
        proof {
            assert forall|k: Seq<char>| #[trigger]
                transaction_entries(map).contains_key(k) implies transaction_entries(map)[k].id
                == k by {
                if k != transaction@.id {
                    assert(before.transactions.contains_key(k));
                }
            }
        }
        assert(store_keys_match(
            StoreView { transactions: transaction_entries(map), accounts: account_entries(self.accounts) },
        ));
        std::mem::swap(&mut map, &mut self.transactions);
        Ok(())
    }

    /// Keeps the account under the text of its address, replacing any kept there before.
    fn store_account(&mut self, account: Account) -> (stored: Result<(), DataStorageError>)
        ensures
            stored is Ok,
            final(self)@.accounts == old(self)@.accounts.insert(
                pubkey_text(account@.address),
                account@,
            ),
            final(self)@.transactions == old(self)@.transactions,
    {
        proof {
            use_type_invariant(&*self);
        }
        let key = pubkey_to_string(&account.address);
        let ghost before = self@;
        assert(store_keys_match(before));
        assert(before.transactions == transaction_entries(self.transactions));
        // The map is taken out while it changes, so that the store never
        // holds a record under another key.
        let mut map = new_account_map();
        assert(store_keys_match(
            StoreView { transactions: transaction_entries(self.transactions), accounts: account_entries(map) },
        ));
        std::mem::swap(&mut map, &mut self.accounts);
        insert_account_entry(&mut map, key, account);
        proof {
            assert forall|k: Seq<char>| #[trigger]
                account_entries(map).contains_key(k) implies pubkey_text(
                account_entries(map)[k].address,
            ) == k by {
                if k != pubkey_text(account@.address) {
                    assert(before.accounts.contains_key(k));
                }
            }
        }
        assert(store_keys_match(
            StoreView { transactions: transaction_entries(self.transactions), accounts: account_entries(map) },
        ));
        std::mem::swap(&mut map, &mut self.accounts);
        Ok(())
    }
}

/// A transaction read back under its id after it was stored is the one
/// stored; every other id reads as before.
pub proof fn law_read_after_store_transaction(
    before: StoreView,
    after: StoreView,
    t: TransactionView,
    other: Seq<char>,
)
    requires
        after.transactions == before.transactions.insert(t.id, t),
    ensures
        after.transactions.contains_key(t.id),
        after.transactions[t.id] == t,
        other != t.id ==> after.transactions.contains_key(other)
            == before.transactions.contains_key(other),
        other != t.id && before.transactions.contains_key(other) ==> after.transactions[other]
            == before.transactions[other],
{
}

/// Storing the same transaction twice leaves the store as storing it once.
pub proof fn law_store_transaction_idempotent(
    before: StoreView,
    once: StoreView,
    twice: StoreView,
    t: TransactionView,
)
    requires
        once.transactions == before.transactions.insert(t.id, t),
        twice.transactions == once.transactions.insert(t.id, t),
    ensures
        twice.transactions == once.transactions,
{
    assert(twice.transactions =~= once.transactions);
}

/// Of two accounts stored one after the other with the same address, the
/// later one is kept.
pub proof fn law_latest_account_wins(
    before: StoreView,
    first: AccountView,
    second: AccountView,
    mid: StoreView,
    after: StoreView,
)
    requires
        first.address == second.address,
        mid.accounts == before.accounts.insert(pubkey_text(first.address), first),
        after.accounts == mid.accounts.insert(pubkey_text(second.address), second),
    ensures
        after.accounts == before.accounts.insert(pubkey_text(second.address), second),
        after.accounts[pubkey_text(first.address)] == second,
{
    assert(after.accounts =~= before.accounts.insert(pubkey_text(second.address), second));
}

/// A listing of all transactions made after a transaction was stored holds
/// that transaction.
pub proof fn law_listing_holds_stored_transaction(
    found: Seq<TransactionView>,
    stored: Map<Seq<char>, TransactionView>,
    t: TransactionView,
)
    requires
        lists_transactions(found, stored, |v: TransactionView| true),
        stored.contains_key(t.id),
        stored[t.id] == t,
    ensures
        exists|i: int| 0 <= i < found.len() && found[i] == t,
{
    let wanted = |v: TransactionView| true;
    assert(stored.contains_key(t.id) && wanted(stored[t.id]));
    let i = choose|i: int| 0 <= i < found.len() && #[trigger] found[i].id == t.id;
    assert(found[i] == stored[found[i].id]);
}

/// A listing of all accounts made after an account was stored holds that
/// account.
pub proof fn law_listing_holds_stored_account(
    found: Seq<AccountView>,
    stored: Map<Seq<char>, AccountView>,
    a: AccountView,
)
    requires
        lists_accounts(found, stored),
        stored.contains_key(pubkey_text(a.address)),
        stored[pubkey_text(a.address)] == a,
    ensures
        exists|i: int| 0 <= i < found.len() && found[i] == a,
{
    let i = choose|i: int|
        0 <= i < found.len() && pubkey_text(#[trigger] found[i].address) == pubkey_text(a.address);
    assert(found[i] == stored[pubkey_text(found[i].address)]);
}

/// A query by sender lists exactly the transactions of the full listing that
/// have that sender.
pub proof fn law_sender_query_selects_from_all(
    all: Seq<TransactionView>,
    by_sender: Seq<TransactionView>,
    stored: Map<Seq<char>, TransactionView>,
    sender: Seq<u8>,
    t: TransactionView,
)
    requires
        lists_transactions(all, stored, |v: TransactionView| true),
        lists_transactions(by_sender, stored, |v: TransactionView| v.sender == sender),
    ensures
        (exists|i: int| 0 <= i < by_sender.len() && by_sender[i] == t) <==> ((exists|i: int|
            0 <= i < all.len() && all[i] == t) && t.sender == sender),
{
    let everything = |v: TransactionView| true;
    let wanted = |v: TransactionView| v.sender == sender;
    if exists|i: int| 0 <= i < by_sender.len() && by_sender[i] == t {
        let i = choose|i: int| 0 <= i < by_sender.len() && by_sender[i] == t;
        assert(stored.contains_key(by_sender[i].id) && wanted(by_sender[i]));
        assert(stored.contains_key(t.id) && everything(stored[t.id]));
        let j = choose|j: int| 0 <= j < all.len() && #[trigger] all[j].id == t.id;
        assert(all[j] == stored[all[j].id]);
    }
    if (exists|i: int| 0 <= i < all.len() && all[i] == t) && t.sender == sender {
        let i = choose|i: int| 0 <= i < all.len() && all[i] == t;
        assert(stored.contains_key(all[i].id) && everything(all[i]));
        assert(stored.contains_key(t.id) && wanted(stored[t.id]));
        let j = choose|j: int| 0 <= j < by_sender.len() && #[trigger] by_sender[j].id == t.id;
        assert(by_sender[j] == stored[by_sender[j].id]);
    }
}

} // verus!
