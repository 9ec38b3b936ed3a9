//! An account table and a transaction log held in vectors.
//!
//! The table keeps one record per name, in the order of creation, and finds
//! a record by walking the vector. The log keeps its records in the order of
//! their identifiers, so the record with identifier `n` is at position `n - 1`.

use vstd::prelude::*;
use crate::bank::model::{
    AccountView, TransactionView, fresh_table, keyed_by_name, lists_table, numbered,
    originated_by,
};
use crate::bank::storage::{
    AccountStorage, AccountTransfer, Error, TransactionAction, TransactionStorage,
    TransactionTransfer, accounts_view, transactions_view,
};

verus! {

/// The account table of the in-memory backend.
pub struct MemAccountStorage {
    storage: Vec<AccountTransfer>,
    // name reserved for the account that collects fees
    fee_acc_name: String,
}

/// A transaction as the in-memory log keeps it.
#[derive(Debug)]
pub struct MemTransactionStorageItem {
    pub id: usize,
    pub action: TransactionAction,
    pub account_name: String,
}

/// The transaction log of the in-memory backend.
pub struct MemTransactionStorage {
    storage: Vec<MemTransactionStorageItem>,
    last_tr_id: usize,
}

/// Whether a record of `list` is named `name`.
spec fn holds_name(list: Seq<AccountTransfer>, name: Seq<char>) -> bool {
    exists|i: int| 0 <= i < list.len() && (#[trigger] list[i]).name@ == name
}

/// A position in `list` of a record named `name`, where there is one.
spec fn position_of(list: Seq<AccountTransfer>, name: Seq<char>) -> int {
    choose|i: int| 0 <= i < list.len() && (#[trigger] list[i]).name@ == name
}

/// No two records of `list` have the same name.
spec fn distinct_names(list: Seq<AccountTransfer>) -> bool {
    forall|i: int, j: int|
        0 <= i < j < list.len() ==> (#[trigger] list[i]).name@ != (#[trigger] list[j]).name@
}

/// The records of `list` by their names.
spec fn table_of(list: Seq<AccountTransfer>) -> Map<Seq<char>, AccountView> {
    Map::new(
        |name: Seq<char>| holds_name(list, name),
        |name: Seq<char>| list[position_of(list, name)]@,
    )
}

/// Where no name occurs twice, the table holds each record under its name.
proof fn lemma_table_at(list: Seq<AccountTransfer>, i: int)
    requires
        distinct_names(list),
        0 <= i < list.len(),
    ensures
        holds_name(list, list[i].name@),
        position_of(list, list[i].name@) == i,
        table_of(list).contains_key(list[i].name@),
        table_of(list)[list[i].name@] == list[i]@,
{
    let p = position_of(list, list[i].name@);
    assert(0 <= p < list.len() && list[p].name@ == list[i].name@);
    if p < i {
        assert(list[p].name@ != list[i].name@);
    } else if i < p {
        assert(list[i].name@ != list[p].name@);
    }
}

/// A record with a new name, added at the end, is one more entry of the
/// table.
proof fn lemma_table_push(list: Seq<AccountTransfer>, acc: AccountTransfer)
    requires
        distinct_names(list),
        !holds_name(list, acc.name@),
    ensures
        distinct_names(list.push(acc)),
        table_of(list.push(acc)) == table_of(list).insert(acc.name@, acc@),
{
    let grown = list.push(acc);
    assert forall|i: int, j: int| 0 <= i < j < grown.len() implies (#[trigger] grown[i]).name@
        != (#[trigger] grown[j]).name@ by {
        if j == list.len() {
            assert(list[i].name@ != acc.name@);
        } else {
            assert(list[i].name@ != list[j].name@);
        }
    }
    assert forall|name: Seq<char>| holds_name(grown, name) <==> (holds_name(list, name) || name
        == acc.name@) by {
        if holds_name(grown, name) {
            let i = choose|i: int| 0 <= i < grown.len() && (#[trigger] grown[i]).name@ == name;
            if i < list.len() {
                assert(list[i].name@ == name);
            }
        }
        if holds_name(list, name) {
            let i = choose|i: int| 0 <= i < list.len() && (#[trigger] list[i]).name@ == name;
            assert(grown[i].name@ == name);
        }
        if name == acc.name@ {
            assert(grown[list.len() as int].name@ == name);
        }
    }
    assert forall|name: Seq<char>| holds_name(grown, name) implies #[trigger] table_of(grown)[name]
        == table_of(list).insert(acc.name@, acc@)[name] by {
        let p = position_of(grown, name);
        lemma_table_at(grown, p);
        if name != acc.name@ {
            let q = position_of(list, name);
            lemma_table_at(list, q);
            assert(grown[q].name@ == name);
            lemma_table_at(grown, q);
        } else {
            lemma_table_at(grown, list.len() as int);
        }
    }
    assert(table_of(grown) =~= table_of(list).insert(acc.name@, acc@));
}

/// A record put in the place of one with the same name replaces that entry
/// of the table and no other.
proof fn lemma_table_update(list: Seq<AccountTransfer>, at: int, acc: AccountTransfer)
    requires
        distinct_names(list),
        0 <= at < list.len(),
        list[at].name@ == acc.name@,
    ensures
        distinct_names(list.update(at, acc)),
        table_of(list.update(at, acc)) == table_of(list).insert(acc.name@, acc@),
{
    let changed = list.update(at, acc);
    assert forall|i: int, j: int| 0 <= i < j < changed.len() implies (#[trigger] changed[i]).name@
        != (#[trigger] changed[j]).name@ by {
        assert(list[i].name@ != list[j].name@);
    }
    assert forall|name: Seq<char>| holds_name(changed, name) <==> holds_name(list, name) by {
        if holds_name(changed, name) {
            let i = choose|i: int| 0 <= i < changed.len() && (#[trigger] changed[i]).name@ == name;
            assert(list[i].name@ == name);
        }
        if holds_name(list, name) {
            let i = choose|i: int| 0 <= i < list.len() && (#[trigger] list[i]).name@ == name;
            assert(changed[i].name@ == name);
        }
    }
    lemma_table_at(list, at);
    assert forall|name: Seq<char>| holds_name(changed, name) implies #[trigger] table_of(
        changed,
    )[name] == table_of(list).insert(acc.name@, acc@)[name] by {
        let p = position_of(changed, name);
        lemma_table_at(changed, p);
        if name != acc.name@ {
            assert(list[p].name@ == name);
            lemma_table_at(list, p);
        } else {
            lemma_table_at(changed, at);
        }
    }
    assert(table_of(changed) =~= table_of(list).insert(acc.name@, acc@));
}

impl MemAccountStorage {
    /// A table that holds the fee account, named `fee_acc`, with no money on
    /// it and no transactions, and nothing else.
    pub fn new() -> (r: Result<Self, Error>)
        ensures
            r is Ok,
            r->Ok_0.inv(),
            r->Ok_0.fee_name() == "fee_acc"@,
            r->Ok_0.table() == fresh_table("fee_acc"@),
    {
        Ok(Self::default())
    }

    /// The position of the record named `name`, if there is one.
    fn find(&self, name: &String) -> (r: Option<usize>)
        ensures
            match r {
                Some(i) => i < self.storage@.len() && self.storage@[i as int].name@ == name@,
                None => !holds_name(self.storage@, name@),
            },
    {
        let mut i: usize = 0;
        while i < self.storage.len()
            invariant
                i <= self.storage@.len(),
                forall|j: int| 0 <= j < i ==> (#[trigger] self.storage@[j]).name@ != name@,
            decreases self.storage@.len() - i,
        {
            if self.storage[i].name == *name {
                return Some(i);
            }
            i += 1;
        }
        None
    }
}

impl Default for MemAccountStorage {
    fn default() -> (s: Self)
        ensures
            s.inv(),
            s.fee_name() == "fee_acc"@,
            s.table() == fresh_table("fee_acc"@),
    {
        let fee_acc_name = "fee_acc".to_string();
        let fee_acc = AccountTransfer::new(fee_acc_name.clone(), None);
        let mut storage: Vec<AccountTransfer> = Vec::new();
        proof {
            lemma_table_push(storage@, fee_acc);
            assert(table_of(storage@) =~= Map::<Seq<char>, AccountView>::empty());
        }
        storage.push(fee_acc);
        let s = MemAccountStorage { storage, fee_acc_name };
        proof {
            lemma_table_at(s.storage@, 0);
        }
        s
    }
}

impl AccountStorage for MemAccountStorage {
    closed spec fn inv(&self) -> bool {
        &&& distinct_names(self.storage@)
        &&& holds_name(self.storage@, self.fee_acc_name@)
    }

    closed spec fn table(&self) -> Map<Seq<char>, AccountView> {
        table_of(self.storage@)
    }

    closed spec fn fee_name(&self) -> Seq<char> {
        self.fee_acc_name@
    }

    open spec fn reliable() -> bool {
        true
    }

    proof fn lemma_table_well_formed(&self) {
        assert forall|name: Seq<char>| #[trigger]
            self.table().contains_key(name) implies self.table()[name].name == name by {
            lemma_table_at(self.storage@, position_of(self.storage@, name));
        }
    }

    proof fn lemma_default_is_fresh(fresh: Self) {
    }

    fn create_account(&mut self, raw_data: AccountTransfer) -> (r: Result<AccountTransfer, Error>) {
        match self.find(&raw_data.name) {
            Some(_) => Err(Error::AccountAlreadyExists),
            None => {
                let inserted = raw_data.clone();
                proof {
                    lemma_table_push(self.storage@, raw_data);
                    let i = position_of(self.storage@, self.fee_acc_name@);
                    assert(self.storage@.push(raw_data)[i].name@ == self.fee_acc_name@);
                }
                self.storage.push(raw_data);
                Ok(inserted)
            },
        }
    }

    fn get_account(&self, name: String) -> (r: Result<AccountTransfer, Error>) {
        match self.find(&name) {
            Some(i) => {
                proof {
                    lemma_table_at(self.storage@, i as int);
                }
                Ok(self.storage[i].clone())
            },
            None => Err(Error::AccountNotExists),
        }
    }

    fn update_account(&mut self, transfer_data: AccountTransfer) -> (r: Result<
        AccountTransfer,
        Error,
    >) {
        match self.find(&transfer_data.name) {
            Some(i) => {
                let stored = transfer_data.clone();
                proof {
                    lemma_table_at(self.storage@, i as int);
                    lemma_table_update(self.storage@, i as int, transfer_data);
                    let f = position_of(self.storage@, self.fee_acc_name@);
                    assert(self.storage@.update(i as int, transfer_data)[f].name@
                        == self.fee_acc_name@);
                }
                self.storage.set(i, transfer_data);
                Ok(stored)
            },
            None => Err(Error::AccountNotExists),
        }
    }

    fn fee_account(&self) -> (r: Result<AccountTransfer, Error>) {
        match self.find(&self.fee_acc_name) {
            Some(i) => {
                proof {
                    lemma_table_at(self.storage@, i as int);
                }
                Ok(self.storage[i].clone())
            },
            None => Err(Error::AccountNotExists),
        }
    }

    fn accounts(&self) -> (r: Result<Vec<AccountTransfer>, Error>) {
        let mut list: Vec<AccountTransfer> = Vec::new();
        let mut i: usize = 0;
        while i < self.storage.len()
            invariant
                i <= self.storage@.len(),
                list@.len() == i,
                forall|j: int| 0 <= j < i ==> (#[trigger] list@[j])@ == self.storage@[j]@,
            decreases self.storage@.len() - i,
        {
            list.push(self.storage[i].clone());
            i += 1;
        }
        proof {
            let views = accounts_view(list@);
            assert forall|j: int| 0 <= j < views.len() implies self.table().contains_key(
                (#[trigger] views[j]).name,
            ) && self.table()[views[j].name] == views[j] by {
                lemma_table_at(self.storage@, j);
            }
            assert forall|j: int, k: int| 0 <= j < k < views.len() implies (#[trigger] views[j])
                .name != (#[trigger] views[k]).name by {
                assert(self.storage@[j].name@ != self.storage@[k].name@);
            }
            assert forall|name: Seq<char>| #[trigger]
                self.table().contains_key(name) implies exists|j: int|
                0 <= j < views.len() && (#[trigger] views[j]).name == name by {
                let p = position_of(self.storage@, name);
                assert(views[p].name == name);
            }
        }
        Ok(list)
    }
}

impl View for MemTransactionStorageItem {
    type V = TransactionView;

    open spec fn view(&self) -> TransactionView {
        TransactionView {
            id: self.id as nat,
            action: self.action@,
            account_name: self.account_name@,
        }
    }
}

impl Clone for MemTransactionStorageItem {
    fn clone(&self) -> (item: Self)
        ensures
            item@ == self@,
    {
        Self { id: self.id, action: self.action.clone(), account_name: self.account_name.clone() }
    }
}

impl Default for MemTransactionStorageItem {
    fn default() -> (item: Self)
        ensures
            item@ == (TransactionView {
                id: 0,
                action: crate::bank::model::ActionView::Registration,
                account_name: Seq::empty(),
            }),
    {
        Self { id: 0, action: TransactionAction::default(), account_name: String::new() }
    }
}

impl From<MemTransactionStorageItem> for TransactionTransfer {
    fn from(value: MemTransactionStorageItem) -> (tr: Self) {
        TransactionTransfer {
            id: value.id,
            action: value.action,
            account_name: value.account_name,
        }
    }
}

impl vstd::std_specs::convert::FromSpecImpl<MemTransactionStorageItem> for TransactionTransfer {
    open spec fn obeys_from_spec() -> bool {
        true
    }

    open spec fn from_spec(value: MemTransactionStorageItem) -> Self {
        TransactionTransfer {
            id: value.id,
            action: value.action,
            account_name: value.account_name,
        }
    }
}

/// The views of the records of the log, in order.
spec fn log_of(list: Seq<MemTransactionStorageItem>) -> Seq<TransactionView> {
    list.map_values(|item: MemTransactionStorageItem| item@)
}

impl MemTransactionStorage {
    /// A log that holds no transaction.
    pub fn new() -> (s: Self)
        ensures
            s.inv(),
            s.log() == Seq::<TransactionView>::empty(),
    {
        let s = MemTransactionStorage { storage: Vec::new(), last_tr_id: 0 };
        assert(s.log() =~= Seq::<TransactionView>::empty());
        s
    }

    /// The transactions that the account `account_name` originated, oldest
    /// first. An account that originated none is not known to the log.
    pub fn account_transactions(&self, account_name: String) -> (r: Result<
        Vec<TransactionTransfer>,
        Error,
    >)
        requires
            self.inv(),
        ensures
            match r {
                Ok(list) => list@.len() > 0 && transactions_view(list@) == originated_by(
                    self.log(),
                    account_name@,
                ),
                Err(e) => e is AccountNotExists && originated_by(self.log(), account_name@).len()
                    == 0,
            },
    {
        let ghost all = self.log();
        let mut list: Vec<TransactionTransfer> = Vec::new();
        let mut i: usize = 0;
        assert(all.take(0) =~= Seq::<TransactionView>::empty());
        assert(transactions_view(list@) =~= Seq::<TransactionView>::empty());
        while i < self.storage.len()
            invariant
                i <= self.storage@.len(),
                all == log_of(self.storage@),
                transactions_view(list@) == originated_by(all.take(i as int), account_name@),
            decreases self.storage@.len() - i,
        {
            proof {
                assert(all.take(i + 1).drop_last() =~= all.take(i as int));
            }
            if self.storage[i].account_name == account_name {
                let ghost before = transactions_view(list@);
                let tr = TransactionTransfer::from(self.storage[i].clone());
                list.push(tr);
                assert(transactions_view(list@) =~= before.push(tr@));
            }
            i += 1;
        }
        assert(all.take(i as int) =~= all);
        if list.len() == 0 {
            Err(Error::AccountNotExists)
        } else {
            Ok(list)
        }
    }
}

impl Default for MemTransactionStorage {
    fn default() -> (s: Self)
        ensures
            s.inv(),
            s.log() == Seq::<TransactionView>::empty(),
    {
        Self::new()
    }
}

impl TransactionStorage for MemTransactionStorage {
    closed spec fn inv(&self) -> bool {
        &&& self.last_tr_id == self.storage@.len()
        &&& numbered(log_of(self.storage@))
    }

    closed spec fn log(&self) -> Seq<TransactionView> {
        log_of(self.storage@)
    }

    open spec fn reliable() -> bool {
        true
    }

    proof fn lemma_log_numbered(&self) {
    }

    proof fn lemma_default_is_empty(fresh: Self) {
    }

    fn create_transaction(&mut self, account_name: String, action: TransactionAction) -> (r:
        Result<TransactionTransfer, Error>) {
        self.last_tr_id += 1;
        let item = MemTransactionStorageItem { id: self.last_tr_id, action, account_name };
        self.storage.push(item.clone());
        proof {
            assert(log_of(self.storage@) =~= log_of(old(self).storage@).push(item@));
        }
        Ok(TransactionTransfer::from(item))
    }

    fn transactions(&self) -> (r: Result<Vec<TransactionTransfer>, Error>) {
        let mut list: Vec<TransactionTransfer> = Vec::new();
        let mut i: usize = 0;
        while i < self.storage.len()
            invariant
                i <= self.storage@.len(),
                list@.len() == i,
                forall|j: int| 0 <= j < i ==> (#[trigger] list@[j])@ == self.storage@[j]@,
            decreases self.storage@.len() - i,
        {
            list.push(TransactionTransfer::from(self.storage[i].clone()));
            i += 1;
        }
        assert(transactions_view(list@) =~= self.log());
        Ok(list)
    }

    fn transaction_by_id(&self, id: usize) -> (r: Result<TransactionTransfer, Error>) {
        if 1 <= id && id <= self.storage.len() {
            Ok(TransactionTransfer::from(self.storage[id - 1].clone()))
        } else {
            Err(Error::TransactionNotExists)
        }
    }
}

} // verus!
