//! The records that travel between the ledger and a storage backend, and the
//! two interfaces a backend implements.

use vstd::prelude::*;
use vstd::string::StringExecFns;
use crate::bank::model::{
    AccountView, ActionView, TransactionView, fresh_table, ids_view, keyed_by_name, lists_table,
    numbered,
};

verus! {

/// An account record as a backend stores it.
#[derive(Debug, PartialEq, Eq)]
pub struct AccountTransfer {
    pub name: String,
    pub balance: usize,
    pub trs: Vec<usize>,
}

/// What a transaction did to the account that originated it.
#[derive(Debug, PartialEq)]
pub enum TransactionAction {
    Registration,
    Add(usize),
    Withdraw(usize),
    Transfer { to: String, value: usize, fee: usize },
}

/// A transaction record as a backend stores it.
#[derive(Debug, PartialEq)]
pub struct TransactionTransfer {
    pub id: usize,
    pub action: TransactionAction,
    pub account_name: String,
}

/// Why a backend refused a request.
#[derive(Debug, PartialEq, Eq)]
pub enum Error {
    StorageError(String),
    AccountAlreadyExists,
    AccountNotExists,
    TransactionNotExists,
}

impl View for AccountTransfer {
    type V = AccountView;

    open spec fn view(&self) -> AccountView {
        AccountView { name: self.name@, balance: self.balance as nat, trs: ids_view(self.trs@) }
    }
}

impl View for TransactionAction {
    type V = ActionView;

    open spec fn view(&self) -> ActionView {
        match self {
            TransactionAction::Registration => ActionView::Registration,
            TransactionAction::Add(value) => ActionView::Add(*value as nat),
            TransactionAction::Withdraw(value) => ActionView::Withdraw(*value as nat),
            TransactionAction::Transfer { to, value, fee } => ActionView::Transfer {
                to: to@,
                value: *value as nat,
                fee: *fee as nat,
            },
        }
    }
}

impl View for TransactionTransfer {
    type V = TransactionView;

    open spec fn view(&self) -> TransactionView {
        TransactionView {
            id: self.id as nat,
            action: self.action@,
            account_name: self.account_name@,
        }
    }
}

/// The views of a list of account records, in order.
pub open spec fn accounts_view(list: Seq<AccountTransfer>) -> Seq<AccountView> {
    list.map_values(|acc: AccountTransfer| acc@)
}

/// The views of a list of transaction records, in order.
pub open spec fn transactions_view(list: Seq<TransactionTransfer>) -> Seq<TransactionView> {
    list.map_values(|tr: TransactionTransfer| tr@)
}

impl Error {
    /// What the error says, in words.
    pub open spec fn message_text(self) -> Seq<char> {
        match self {
            Error::StorageError(detail) => "storage error: `"@ + detail@ + "`"@,
            Error::AccountAlreadyExists => "account already exists"@,
            Error::AccountNotExists => "account not exists"@,
            Error::TransactionNotExists => "transaction not exists"@,
        }
    }

    /// What the error says, in words.
    pub fn message(&self) -> (text: String)
        ensures
            text@ == self.message_text(),
    {
        match self {
            Error::StorageError(detail) => "storage error: `".to_string().concat(
                detail.as_str(),
            ).concat("`"),
            Error::AccountAlreadyExists => "account already exists".to_string(),
            Error::AccountNotExists => "account not exists".to_string(),
            Error::TransactionNotExists => "transaction not exists".to_string(),
        }
    }
}

impl AccountTransfer {
    /// A record with no transactions, holding `balance` or nothing.
    pub fn new(name: String, balance: Option<usize>) -> (acc: Self)
        ensures
            acc@ == (AccountView {
                name: name@,
                balance: match balance {
                    Some(b) => b as nat,
                    None => 0,
                },
                trs: Seq::empty(),
            }),
    {
        let balance = match balance {
            Some(b) => b,
            None => 0,
        };
        let acc = Self { name, balance, trs: Vec::new() };
        assert(acc@.trs =~= Seq::<nat>::empty());
        acc
    }
}

impl Clone for AccountTransfer {
    fn clone(&self) -> (acc: Self)
        ensures
            acc@ == self@,
    {
        Self { name: self.name.clone(), balance: self.balance, trs: self.trs.clone() }
    }
}

impl Default for TransactionAction {
    fn default() -> (action: Self)
        ensures
            action@ == ActionView::Registration,
    {
        TransactionAction::Registration
    }
}

impl Clone for TransactionAction {
    fn clone(&self) -> (action: Self)
        ensures
            action@ == self@,
    {
        match self {
            Self::Registration => Self::Registration,
            Self::Add(value) => Self::Add(*value),
            Self::Withdraw(value) => Self::Withdraw(*value),
            Self::Transfer { to, value, fee } => Self::Transfer {
                to: to.clone(),
                value: *value,
                fee: *fee,
            },
        }
    }
}

impl Clone for TransactionTransfer {
    fn clone(&self) -> (tr: Self)
        ensures
            tr@ == self@,
    {
        Self { id: self.id, action: self.action.clone(), account_name: self.account_name.clone() }
    }
}

/// Whether a table made by `default` keeps its fee account under `name`.
pub open spec fn default_fee_name<A: AccountStorage>(name: Seq<char>) -> bool {
    exists|fresh: A| call_ensures(<A as Default>::default, (), fresh) && fresh.fee_name() == name
}

/// A keyed store of the current account records, one per name, among them
/// the reserved account that collects transfer fees.
pub trait AccountStorage: Sized + Default {
    /// What holds of every state this backend can be in.
    spec fn inv(&self) -> bool;

    /// The records, by account name.
    spec fn table(&self) -> Map<Seq<char>, AccountView>;

    /// The name of the account that collects fees.
    spec fn fee_name(&self) -> Seq<char>;

    /// Whether a backend of this kind never reports a storage failure.
    spec fn reliable() -> bool;

    /// In every state each record is filed under its own name, and the fee
    /// account is there.
    proof fn lemma_table_well_formed(&self)
        requires
            self.inv(),
        ensures
            keyed_by_name(self.table()),
            self.table().contains_key(self.fee_name()),
    ;

    /// A backend made by `default` holds the fee account, with no money on
    /// it and no transactions, and nothing else.
    proof fn lemma_default_is_fresh(fresh: Self)
        requires
            call_ensures(<Self as Default>::default, (), fresh),
        ensures
            fresh.inv(),
            fresh.table() == fresh_table(fresh.fee_name()),
    ;

    /// Files a record under a name that is not yet there.
    fn create_account(&mut self, raw_data: AccountTransfer) -> (r: Result<AccountTransfer, Error>)
        requires
            old(self).inv(),
        ensures
            final(self).inv(),
            final(self).fee_name() == old(self).fee_name(),
            match r {
                Ok(acc) => {
                    &&& !old(self).table().contains_key(raw_data.name@)
                    &&& final(self).table() == old(self).table().insert(raw_data.name@, raw_data@)
                    &&& acc@ == raw_data@
                },
                Err(e) => {
                    &&& final(self).table() == old(self).table()
                    &&& (e is AccountAlreadyExists && old(self).table().contains_key(
                        raw_data.name@,
                    )) || e is StorageError
                },
            },
            Self::reliable() ==> !(r matches Err(Error::StorageError(_))),
    ;

    /// The record filed under `name`.
    fn get_account(&self, name: String) -> (r: Result<AccountTransfer, Error>)
        requires
            self.inv(),
        ensures
            match r {
                Ok(acc) => self.table().contains_key(name@) && acc@ == self.table()[name@],
                Err(e) => (e is AccountNotExists && !self.table().contains_key(name@))
                    || e is StorageError,
            },
            Self::reliable() ==> !(r matches Err(Error::StorageError(_))),
    ;

    /// Replaces the whole record filed under the record's name; never files
    /// a new one.
    fn update_account(&mut self, transfer_data: AccountTransfer) -> (r: Result<
        AccountTransfer,
        Error,
    >)
        requires
            old(self).inv(),
        ensures
            final(self).inv(),
            final(self).fee_name() == old(self).fee_name(),
            match r {
                Ok(acc) => {
                    &&& old(self).table().contains_key(transfer_data.name@)
                    &&& final(self).table() == old(self).table().insert(
                        transfer_data.name@,
                        transfer_data@,
                    )
                    &&& acc@ == transfer_data@
                },
                Err(e) => {
                    &&& final(self).table() == old(self).table()
                    &&& (e is AccountNotExists && !old(self).table().contains_key(
                        transfer_data.name@,
                    )) || e is StorageError
                },
            },
            Self::reliable() ==> !(r matches Err(Error::StorageError(_))),
    ;

    /// The record of the account that collects fees.
    fn fee_account(&self) -> (r: Result<AccountTransfer, Error>)
        requires
            self.inv(),
        ensures
            match r {
                Ok(acc) => acc@ == self.table()[self.fee_name()],
                Err(e) => e is StorageError,
            },
            Self::reliable() ==> r is Ok,
    ;

    /// Every record, each once, in an order the backend chooses.
    fn accounts(&self) -> (r: Result<Vec<AccountTransfer>, Error>)
        requires
            self.inv(),
        ensures
            match r {
                Ok(list) => lists_table(accounts_view(list@), self.table()),
                Err(e) => e is StorageError,
            },
            Self::reliable() ==> r is Ok,
    ;
}

/// An append-only log of transaction records, which hands out their
/// identifiers.
pub trait TransactionStorage: Sized + Default {
    /// What holds of every state this backend can be in.
    spec fn inv(&self) -> bool;

    /// The log, oldest record first.
    spec fn log(&self) -> Seq<TransactionView>;

    /// Whether a backend of this kind never reports a storage failure.
    spec fn reliable() -> bool;

    /// In every state the identifiers are the positions in the log, counted
    /// from 1.
    proof fn lemma_log_numbered(&self)
        requires
            self.inv(),
        ensures
            numbered(self.log()),
    ;

    /// A backend made by `default` holds no transaction.
    proof fn lemma_default_is_empty(fresh: Self)
        requires
            call_ensures(<Self as Default>::default, (), fresh),
        ensures
            fresh.inv(),
            fresh.log() == Seq::<TransactionView>::empty(),
    ;

    /// Appends a record under the next identifier and returns it.
    fn create_transaction(&mut self, account_name: String, action: TransactionAction) -> (r:
        Result<TransactionTransfer, Error>)
        requires
            old(self).inv(),
            old(self).log().len() < usize::MAX,
        ensures
            final(self).inv(),
            match r {
                Ok(tr) => {
                    &&& tr@ == (TransactionView {
                        id: old(self).log().len() + 1,
                        action: action@,
                        account_name: account_name@,
                    })
                    &&& final(self).log() == old(self).log().push(tr@)
                },
                Err(e) => final(self).log() == old(self).log() && e is StorageError,
            },
            Self::reliable() ==> r is Ok,
    ;

    /// The whole log, oldest record first.
    fn transactions(&self) -> (r: Result<Vec<TransactionTransfer>, Error>)
        requires
            self.inv(),
        ensures
            match r {
                Ok(list) => transactions_view(list@) == self.log(),
                Err(e) => e is StorageError,
            },
            Self::reliable() ==> r is Ok,
    ;

    /// The record with identifier `id`.
    fn transaction_by_id(&self, id: usize) -> (r: Result<TransactionTransfer, Error>)
        requires
            self.inv(),
        ensures
            match r {
                Ok(tr) => 1 <= id <= self.log().len() && tr@ == self.log()[id - 1],
                Err(e) => (e is TransactionNotExists && !(1 <= id <= self.log().len()))
                    || e is StorageError,
            },
            Self::reliable() ==> !(r matches Err(Error::StorageError(_))),
    ;
}

} // verus!
