//! The ledger, the records it keeps and the storage it is built on.

use vstd::prelude::*;
use vstd::string::StringExecFns;
use crate::bank::model::{
    AccountView, LedgerView, TransactionView, fresh_table, ids_view, keyed_by_name,
    lemma_ids_view_push, lists_table, numbered,
};
use crate::bank::replay::{
    contains_name, fold_transactions, foldable, lemma_account_lists_its_transactions,
    lemma_deposited_agrees, lemma_fresh_agrees, lemma_listed_push, lemma_opened_agrees,
    lemma_renumbered_same, lemma_touching_push, lemma_transferred_agrees,
    lemma_untouched_is_empty, lemma_withdrawn_agrees, listed, names_in, rebuilt_table,
    renumbered, replayable, restored_account, touched, touches, touching, transactions_of,
};
use crate::bank::storage::{
    AccountStorage, AccountTransfer, Error as StorageError, TransactionAction, TransactionStorage,
    TransactionTransfer, accounts_view, default_fee_name, transactions_view,
};

pub mod implements;
pub mod model;
pub mod replay;
pub mod storage;

verus! {

/// A ledger over an account table and a transaction log, with a flat fee
/// that every transfer pays to the table's fee account.
pub struct Bank<A: AccountStorage, T: TransactionStorage> {
    acc_storage: A,
    tr_storage: T,
    tr_fee: usize,
}

/// An account as the ledger hands it out.
#[derive(Debug)]
pub struct Account {
    pub balance: usize,
    pub name: String,
    pub trs: Vec<usize>,
}

/// A transaction as the ledger hands it out.
#[derive(Debug, PartialEq)]
pub struct Transaction {
    pub id: usize,
    pub action: TransactionAction,
    pub account_name: String,
}

/// Why the ledger refused a request.
#[derive(Debug, PartialEq, Eq)]
pub enum Error {
    Storage(String),
    AccountAlreadyExists,
    AccountNotExists,
    EmptyTransaction,
    NotEnoughMoney,
    TransactionNotExists,
}

impl View for Account {
    type V = AccountView;

    open spec fn view(&self) -> AccountView {
        AccountView { name: self.name@, balance: self.balance as nat, trs: ids_view(self.trs@) }
    }
}

impl View for Transaction {
    type V = TransactionView;

    open spec fn view(&self) -> TransactionView {
        TransactionView {
            id: self.id as nat,
            action: self.action@,
            account_name: self.account_name@,
        }
    }
}

/// The views of a list of accounts, in order.
pub open spec fn account_views(list: Seq<Account>) -> Seq<AccountView> {
    list.map_values(|acc: Account| acc@)
}

/// The views of a list of transactions, in order.
pub open spec fn transaction_views(list: Seq<Transaction>) -> Seq<TransactionView> {
    list.map_values(|tr: Transaction| tr@)
}

impl Account {
    /// What is on the account.
    pub fn balance(&self) -> (balance: usize)
        ensures
            balance == self@.balance,
    {
        self.balance
    }
}

impl Error {
    /// What the error says, in words.
    pub open spec fn message_text(self) -> Seq<char> {
        match self {
            Error::Storage(detail) => "storage error: `"@ + detail@ + "`"@,
            Error::AccountAlreadyExists => "account already exists"@,
            Error::AccountNotExists => "account not exists"@,
            Error::EmptyTransaction => "empty transaction"@,
            Error::NotEnoughMoney => "not enough money"@,
            Error::TransactionNotExists => "transaction not exists"@,
        }
    }

    /// What the error says, in words.
    pub fn message(&self) -> (text: String)
        ensures
            text@ == self.message_text(),
    {
        match self {
            Error::Storage(detail) => "storage error: `".to_string().concat(
                detail.as_str(),
            ).concat("`"),
            Error::AccountAlreadyExists => "account already exists".to_string(),
            Error::AccountNotExists => "account not exists".to_string(),
            Error::EmptyTransaction => "empty transaction".to_string(),
            Error::NotEnoughMoney => "not enough money".to_string(),
            Error::TransactionNotExists => "transaction not exists".to_string(),
        }
    }
}

impl Default for Account {
    fn default() -> (acc: Self)
        ensures
            acc@ == (AccountView { name: Seq::empty(), balance: 0, trs: Seq::empty() }),
    {
        let acc = Account { balance: 0, name: String::new(), trs: Vec::new() };
        assert(acc@.trs =~= Seq::<nat>::empty());
        acc
    }
}

impl Clone for Transaction {
    fn clone(&self) -> (tr: Self)
        ensures
            tr@ == self@,
    {
        Self { id: self.id, action: self.action.clone(), account_name: self.account_name.clone() }
    }
}

impl From<StorageError> for Error {
    fn from(value: StorageError) -> (e: Self) {
        match value {
            StorageError::StorageError(v) => Error::Storage(v),
            StorageError::AccountAlreadyExists => Error::AccountAlreadyExists,
            StorageError::AccountNotExists => Error::AccountNotExists,
            StorageError::TransactionNotExists => Error::TransactionNotExists,
        }
    }
}

impl vstd::std_specs::convert::FromSpecImpl<StorageError> for Error {
    open spec fn obeys_from_spec() -> bool {
        true
    }

    open spec fn from_spec(value: StorageError) -> Self {
        match value {
            StorageError::StorageError(v) => Error::Storage(v),
            StorageError::AccountAlreadyExists => Error::AccountAlreadyExists,
            StorageError::AccountNotExists => Error::AccountNotExists,
            StorageError::TransactionNotExists => Error::TransactionNotExists,
        }
    }
}

impl From<AccountTransfer> for Account {
    fn from(value: AccountTransfer) -> (acc: Self) {
        Account { name: value.name, balance: value.balance, trs: value.trs }
    }
}

impl vstd::std_specs::convert::FromSpecImpl<AccountTransfer> for Account {
    open spec fn obeys_from_spec() -> bool {
        true
    }

    open spec fn from_spec(value: AccountTransfer) -> Self {
        Account { name: value.name, balance: value.balance, trs: value.trs }
    }
}

impl From<Account> for AccountTransfer {
    fn from(value: Account) -> (acc: Self) {
        AccountTransfer { name: value.name, balance: value.balance, trs: value.trs }
    }
}

impl vstd::std_specs::convert::FromSpecImpl<Account> for AccountTransfer {
    open spec fn obeys_from_spec() -> bool {
        true
    }

    open spec fn from_spec(value: Account) -> Self {
        AccountTransfer { name: value.name, balance: value.balance, trs: value.trs }
    }
}

impl From<&Account> for AccountTransfer {
    fn from(value: &Account) -> (acc: Self)
        ensures
            acc@ == value@,
    {
        AccountTransfer {
            name: value.name.clone(),
            balance: value.balance,
            trs: value.trs.clone(),
        }
    }
}

impl vstd::std_specs::convert::FromSpecImpl<&Account> for AccountTransfer {
    open spec fn obeys_from_spec() -> bool {
        false
    }

    open spec fn from_spec(value: &Account) -> Self {
        arbitrary()
    }
}

impl From<TransactionTransfer> for Transaction {
    fn from(value: TransactionTransfer) -> (tr: Self) {
        Transaction { id: value.id, action: value.action, account_name: value.account_name }
    }
}

impl vstd::std_specs::convert::FromSpecImpl<TransactionTransfer> for Transaction {
    open spec fn obeys_from_spec() -> bool {
        true
    }

    open spec fn from_spec(value: TransactionTransfer) -> Self {
        Transaction { id: value.id, action: value.action, account_name: value.account_name }
    }
}

impl<A: AccountStorage, T: TransactionStorage> View for Bank<A, T> {
    type V = LedgerView;

    closed spec fn view(&self) -> LedgerView {
        LedgerView {
            accounts: self.acc_storage.table(),
            log: self.tr_storage.log(),
            fee: self.tr_fee as nat,
            fee_name: self.acc_storage.fee_name(),
        }
    }
}

impl<A: AccountStorage, T: TransactionStorage> Bank<A, T> {
    /// What holds of every ledger: both backends are in a state of theirs.
    pub closed spec fn inv(&self) -> bool {
        self.acc_storage.inv() && self.tr_storage.inv()
    }

    /// In every ledger the identifiers of the transactions are their
    /// positions in the log, counted from 1, every account is filed under
    /// its own name, and the fee account is there.
    pub proof fn lemma_well_formed(&self)
        requires
            self.inv(),
        ensures
            numbered(self@.log),
            keyed_by_name(self@.accounts),
            self@.accounts.contains_key(self@.fee_name),
    {
        self.acc_storage.lemma_table_well_formed();
        self.tr_storage.lemma_log_numbered();
    }

    /// Whether neither backend ever reports a storage failure.
    pub open spec fn reliable() -> bool {
        A::reliable() && T::reliable()
    }

    /// A ledger over the two backends as they are, with the fee `tr_fee`, or
    /// no fee.
    pub fn new(acc_storage: A, tr_storage: T, tr_fee: Option<usize>) -> (bank: Self)
        ensures
            bank@ == (LedgerView {
                accounts: acc_storage.table(),
                log: tr_storage.log(),
                fee: match tr_fee {
                    Some(fee) => fee as nat,
                    None => 0,
                },
                fee_name: acc_storage.fee_name(),
            }),
            bank.inv() == (acc_storage.inv() && tr_storage.inv()),
            tr_storage.log().len() == 0 && acc_storage.table() == fresh_table(
                acc_storage.fee_name(),
            ) ==> bank@.agrees_with_log(),
    {
        proof {
            if tr_storage.log().len() == 0 && acc_storage.table() == fresh_table(
                acc_storage.fee_name(),
            ) {
                lemma_fresh_agrees(
                    LedgerView {
                        accounts: acc_storage.table(),
                        log: tr_storage.log(),
                        fee: 0,
                        fee_name: acc_storage.fee_name(),
                    },
                );
            }
        }
        let tr_fee = match tr_fee {
            Some(fee) => fee,
            None => 0,
        };
        Bank { acc_storage, tr_storage, tr_fee }
    }

    /// Every account, each once, in an order the table chooses.
    pub fn accounts(&self) -> (r: Result<Vec<Account>, Error>)
        requires
            self.inv(),
        ensures
            match r {
                Ok(list) => lists_table(account_views(list@), self@.accounts),
                Err(e) => e is Storage,
            },
            Self::reliable() ==> r is Ok,
    {
        match self.acc_storage.accounts() {
            Ok(raw) => {
                let mut list: Vec<Account> = Vec::new();
                let mut i: usize = 0;
                while i < raw.len()
                    invariant
                        i <= raw@.len(),
                        list@.len() == i,
                        forall|j: int| 0 <= j < i ==> (#[trigger] list@[j])@ == raw@[j]@,
                    decreases raw@.len() - i,
                {
                    list.push(Account::from(raw[i].clone()));
                    i += 1;
                }
                assert(account_views(list@) =~= accounts_view(raw@));
                Ok(list)
            },
            Err(e) => Err(Error::from(e)),
        }
    }

    /// The account `account_name`.
    pub fn account(&self, account_name: String) -> (r: Result<Account, Error>)
        requires
            self.inv(),
        ensures
            match r {
                Ok(acc) => self@.accounts.contains_key(account_name@) && acc@
                    == self@.accounts[account_name@],
                Err(e) => (e is AccountNotExists && !self@.accounts.contains_key(account_name@))
                    || e is Storage,
            },
            Self::reliable() ==> !(r matches Err(Error::Storage(_))),
            Self::reliable() ==> (r is Ok <==> self@.accounts.contains_key(account_name@)),
    {
        match self.acc_storage.get_account(account_name) {
            Ok(acc) => Ok(Account::from(acc)),
            Err(e) => Err(Error::from(e)),
        }
    }

    /// The balance of the account `account_name`.
    pub fn account_balance(&self, account_name: String) -> (r: Result<usize, Error>)
        requires
            self.inv(),
        ensures
            match r {
                Ok(balance) => self@.accounts.contains_key(account_name@) && balance
                    == self@.balance(account_name@),
                Err(e) => (e is AccountNotExists && !self@.accounts.contains_key(account_name@))
                    || e is Storage,
            },
            Self::reliable() ==> !(r matches Err(Error::Storage(_))),
            Self::reliable() ==> (r is Ok <==> self@.accounts.contains_key(account_name@)),
    {
        let acc = self.account(account_name)?;
        Ok(acc.balance)
    }

    /// The whole log, oldest transaction first.
    pub fn transactions(&self) -> (r: Result<Vec<Transaction>, Error>)
        requires
            self.inv(),
        ensures
            match r {
                Ok(list) => transaction_views(list@) == self@.log,
                Err(e) => e is Storage,
            },
            Self::reliable() ==> r is Ok,
    {
        match self.tr_storage.transactions() {
            Ok(raw) => {
                let mut list: Vec<Transaction> = Vec::new();
                let mut i: usize = 0;
                while i < raw.len()
                    invariant
                        i <= raw@.len(),
                        list@.len() == i,
                        forall|j: int| 0 <= j < i ==> (#[trigger] list@[j])@ == raw@[j]@,
                    decreases raw@.len() - i,
                {
                    list.push(Transaction::from(raw[i].clone()));
                    i += 1;
                }
                assert(transaction_views(list@) =~= transactions_view(raw@));
                Ok(list)
            },
            Err(e) => Err(Error::from(e)),
        }
    }

    /// The transaction with identifier `id`.
    pub fn transaction_by_id(&self, id: usize) -> (r: Result<Transaction, Error>)
        requires
            self.inv(),
        ensures
            match r {
                Ok(tr) => 1 <= id <= self@.log.len() && tr@ == self@.log[id - 1],
                Err(e) => (e is TransactionNotExists && !(1 <= id <= self@.log.len()))
                    || e is Storage,
            },
            Self::reliable() ==> !(r matches Err(Error::Storage(_))),
            Self::reliable() ==> (r is Ok <==> 1 <= id <= self@.log.len()),
    {
        match self.tr_storage.transaction_by_id(id) {
            Ok(tr) => Ok(Transaction::from(tr)),
            Err(e) => Err(Error::from(e)),
        }
    }

    /// Opens the account `account_name`: logs its registration, and files it
    /// with no money and that one transaction.
    pub fn create_account(&mut self, account_name: String) -> (r: Result<Account, Error>)
        requires
            old(self).inv(),
            old(self)@.open_fits(account_name@),
        ensures
            final(self).inv(),
            match r {
                Ok(acc) => {
                    &&& old(self)@.open_refusal(account_name@) is None
                    &&& acc@ == AccountView::registered(account_name@, old(self)@.next_id())
                    &&& final(self)@ == old(self)@.opened(account_name@)
                },
                Err(Error::Storage(_)) => !Self::reliable(),
                Err(e) => {
                    &&& old(self)@.open_refusal(account_name@) == Some(e)
                    &&& final(self)@ == old(self)@
                },
            },
            Self::reliable() ==> (r is Ok <==> old(self)@.open_refusal(account_name@) is None),
            final(self)@.continues(old(self)@),
            old(self)@.agrees_with_log() && !(r matches Err(Error::Storage(_)))
                ==> final(self)@.agrees_with_log(),
    {
        proof {
            if old(self)@.agrees_with_log() && !old(self)@.accounts.contains_key(account_name@) {
                lemma_opened_agrees(old(self)@, account_name@);
            }
        }
        // the account is filed before its registration is logged, so that
        // the log never names an account that is not there
        let mut acc = AccountTransfer::new(account_name.clone(), None);
        match self.acc_storage.create_account(acc.clone()) {
            Ok(_) => {},
            Err(e) => {
                return Err(Error::from(e));
            },
        }
        let tr = match self.tr_storage.create_transaction(
            account_name.clone(),
            TransactionAction::Registration,
        ) {
            Ok(tr) => tr,
            Err(e) => {
                return Err(Error::from(e));
            },
        };
        proof {
            lemma_ids_view_push(acc.trs@, tr.id);
        }
        acc.trs.push(tr.id);
        let mut trs: Vec<usize> = Vec::new();
        trs.push(tr.id);
        let opened = Account { name: account_name, balance: 0, trs };
        proof {
            assert(acc@.trs =~= seq![tr.id as nat]);
            assert(opened@.trs =~= seq![tr.id as nat]);
        }
        match self.acc_storage.update_account(acc) {
            Ok(_) => {
                assert(self@.accounts =~= old(self)@.opened(account_name@).accounts);
                Ok(opened)
            },
            Err(e) => Err(Error::from(e)),
        }
    }

    /// Pays `value` in to the account `account_name` and returns the
    /// identifier of the transaction.
    pub fn inc_acc_balance(&mut self, account_name: String, value: usize) -> (r: Result<
        usize,
        Error,
    >)
        requires
            old(self).inv(),
            old(self)@.deposit_fits(account_name@, value as nat),
        ensures
            final(self).inv(),
            match r {
                Ok(id) => {
                    &&& old(self)@.deposit_refusal(account_name@, value as nat) is None
                    &&& id == old(self)@.next_id()
                    &&& final(self)@ == old(self)@.deposited(account_name@, value as nat)
                },
                Err(Error::Storage(_)) => !Self::reliable(),
                Err(e) => {
                    &&& old(self)@.deposit_refusal(account_name@, value as nat) == Some(e)
                    &&& final(self)@ == old(self)@
                },
            },
            Self::reliable() ==> (r is Ok <==> old(self)@.deposit_refusal(
                account_name@,
                value as nat,
            ) is None),
            value == 0 ==> r == Err::<usize, Error>(Error::EmptyTransaction),
            final(self)@.continues(old(self)@),
            old(self)@.agrees_with_log() && !(r matches Err(Error::Storage(_)))
                ==> final(self)@.agrees_with_log(),
    {
        proof {
            if old(self)@.agrees_with_log() && old(self)@.deposit_refusal(
                account_name@,
                value as nat,
            ) is None {
                lemma_deposited_agrees(old(self)@, account_name@, value as nat);
            }
        }
        if value == 0 {
            return Err(Error::EmptyTransaction);
        }
        let mut acc = match self.acc_storage.get_account(account_name.clone()) {
            Ok(acc) => acc,
            Err(e) => {
                return Err(Error::from(e));
            },
        };
        let tr = match self.tr_storage.create_transaction(
            account_name,
            TransactionAction::Add(value),
        ) {
            Ok(tr) => tr,
            Err(e) => {
                return Err(Error::from(e));
            },
        };
        proof {
            self.acc_storage.lemma_table_well_formed();
            lemma_ids_view_push(acc.trs@, tr.id);
        }
        acc.balance += value;
        acc.trs.push(tr.id);
        match self.acc_storage.update_account(acc) {
            Ok(_) => Ok(tr.id),
            Err(e) => Err(Error::from(e)),
        }
    }

    /// Pays `value` out of the account `account_name` and returns the
    /// identifier of the transaction.
    pub fn decr_acc_balance(&mut self, account_name: String, value: usize) -> (r: Result<
        usize,
        Error,
    >)
        requires
            old(self).inv(),
            old(self)@.withdraw_fits(account_name@, value as nat),
        ensures
            final(self).inv(),
            match r {
                Ok(id) => {
                    &&& old(self)@.withdraw_refusal(account_name@, value as nat) is None
                    &&& id == old(self)@.next_id()
                    &&& final(self)@ == old(self)@.withdrawn(account_name@, value as nat)
                },
                Err(Error::Storage(_)) => !Self::reliable(),
                Err(e) => {
                    &&& old(self)@.withdraw_refusal(account_name@, value as nat) == Some(e)
                    &&& final(self)@ == old(self)@
                },
            },
            Self::reliable() ==> (r is Ok <==> old(self)@.withdraw_refusal(
                account_name@,
                value as nat,
            ) is None),
            value == 0 ==> r == Err::<usize, Error>(Error::EmptyTransaction),
            final(self)@.continues(old(self)@),
            old(self)@.agrees_with_log() && !(r matches Err(Error::Storage(_)))
                ==> final(self)@.agrees_with_log(),
    {
        proof {
            if old(self)@.agrees_with_log() && old(self)@.withdraw_refusal(
                account_name@,
                value as nat,
            ) is None {
                lemma_withdrawn_agrees(old(self)@, account_name@, value as nat);
            }
        }
        if value == 0 {
            return Err(Error::EmptyTransaction);
        }
        let mut acc = match self.acc_storage.get_account(account_name.clone()) {
            Ok(acc) => acc,
            Err(e) => {
                return Err(Error::from(e));
            },
        };
        if value > acc.balance {
            return Err(Error::NotEnoughMoney);
        }
        let tr = match self.tr_storage.create_transaction(
            account_name,
            TransactionAction::Withdraw(value),
        ) {
            Ok(tr) => tr,
            Err(e) => {
                return Err(Error::from(e));
            },
        };
        proof {
            self.acc_storage.lemma_table_well_formed();
            lemma_ids_view_push(acc.trs@, tr.id);
        }
        acc.balance -= value;
        acc.trs.push(tr.id);
        match self.acc_storage.update_account(acc) {
            Ok(_) => Ok(tr.id),
            Err(e) => Err(Error::from(e)),
        }
    }

    /// Moves `value` from `account_name_from` to `account_name_to`; the
    /// sender pays the ledger's fee on top, which goes to the fee account
    /// under a transaction of its own. Returns the identifier of the
    /// transfer.
    pub fn make_transaction(
        &mut self,
        account_name_from: String,
        account_name_to: String,
        value: usize,
    ) -> (r: Result<usize, Error>)
        requires
            old(self).inv(),
            old(self)@.transfer_fits(account_name_from@, account_name_to@, value as nat),
        ensures
            final(self).inv(),
            match r {
                Ok(id) => {
                    &&& old(self)@.transfer_refusal(
                        account_name_from@,
                        account_name_to@,
                        value as nat,
                    ) is None
                    &&& id == old(self)@.next_id()
                    &&& final(self)@ == old(self)@.transferred(
                        account_name_from@,
                        account_name_to@,
                        value as nat,
                    )
                },
                Err(Error::Storage(_)) => !Self::reliable(),
                Err(e) => {
                    &&& old(self)@.transfer_refusal(
                        account_name_from@,
                        account_name_to@,
                        value as nat,
                    ) == Some(e)
                    &&& final(self)@ == old(self)@
                },
            },
            r is Ok && account_name_from@ != account_name_to@
                && account_name_from@ != old(self)@.fee_name
                && account_name_to@ != old(self)@.fee_name
                ==> final(self)@.balance(account_name_from@)
                + final(self)@.balance(account_name_to@)
                + final(self)@.balance(old(self)@.fee_name)
                == old(self)@.balance(account_name_from@)
                + old(self)@.balance(account_name_to@)
                + old(self)@.balance(old(self)@.fee_name),
            Self::reliable() ==> (r is Ok <==> old(self)@.transfer_refusal(
                account_name_from@,
                account_name_to@,
                value as nat,
            ) is None),
            value == 0 ==> r == Err::<usize, Error>(Error::EmptyTransaction),
            final(self)@.continues(old(self)@),
            old(self)@.agrees_with_log() && !(r matches Err(Error::Storage(_)))
                ==> final(self)@.agrees_with_log(),
    {
        proof {
            if old(self)@.agrees_with_log() && old(self)@.transfer_refusal(
                account_name_from@,
                account_name_to@,
                value as nat,
            ) is None {
                lemma_transferred_agrees(
                    old(self)@,
                    account_name_from@,
                    account_name_to@,
                    value as nat,
                );
            }
        }
        if value == 0 {
            return Err(Error::EmptyTransaction);
        }
        let mut acc_from = match self.acc_storage.get_account(account_name_from.clone()) {
            Ok(acc) => acc,
            Err(e) => {
                return Err(Error::from(e));
            },
        };
        if value > acc_from.balance || self.tr_fee > acc_from.balance - value {
            return Err(Error::NotEnoughMoney);
        }
        match self.acc_storage.get_account(account_name_to.clone()) {
            Ok(_) => {},
            Err(e) => {
                return Err(Error::from(e));
            },
        }
        proof {
            self.acc_storage.lemma_table_well_formed();
        }
        let same_account = account_name_to == account_name_from;
        let tr = match self.tr_storage.create_transaction(
            account_name_from,
            TransactionAction::Transfer { to: account_name_to.clone(), value, fee: self.tr_fee },
        ) {
            Ok(tr) => tr,
            Err(e) => {
                return Err(Error::from(e));
            },
        };

        // the sender pays the value and the fee
        proof {
            lemma_ids_view_push(acc_from.trs@, tr.id);
        }
        acc_from.balance -= value + self.tr_fee;
        acc_from.trs.push(tr.id);
        match self.acc_storage.update_account(acc_from) {
            Ok(_) => {},
            Err(e) => {
                return Err(Error::from(e));
            },
        }

        // the receiver gets the value
        let mut acc_to = match self.acc_storage.get_account(account_name_to) {
            Ok(acc) => acc,
            Err(e) => {
                return Err(Error::from(e));
            },
        };
        proof {
            self.acc_storage.lemma_table_well_formed();
            lemma_ids_view_push(acc_to.trs@, tr.id);
        }
        acc_to.balance += value;
        if !same_account {
            acc_to.trs.push(tr.id);
        }
        match self.acc_storage.update_account(acc_to) {
            Ok(_) => {},
            Err(e) => {
                return Err(Error::from(e));
            },
        }

        // the fee account gets the fee
        if self.tr_fee > 0 {
            let mut fee_acc = match self.acc_storage.fee_account() {
                Ok(acc) => acc,
                Err(e) => {
                    return Err(Error::from(e));
                },
            };
            proof {
                self.acc_storage.lemma_table_well_formed();
            }
            let fee_tr = match self.tr_storage.create_transaction(
                fee_acc.name.clone(),
                TransactionAction::Add(self.tr_fee),
            ) {
                Ok(tr) => tr,
                Err(e) => {
                    return Err(Error::from(e));
                },
            };
            proof {
                lemma_ids_view_push(fee_acc.trs@, fee_tr.id);
            }
            fee_acc.balance += self.tr_fee;
            fee_acc.trs.push(fee_tr.id);
            match self.acc_storage.update_account(fee_acc) {
                Ok(_) => {},
                Err(e) => {
                    return Err(Error::from(e));
                },
            }
        }
        Ok(tr.id)
    }

    /// Whether the log has room for `count` more transactions.
    fn has_room(&self, count: usize) -> (ok: bool)
        requires
            self.inv(),
            1 <= count <= 2,
        ensures
            ok ==> self@.log.len() + count <= usize::MAX,
            Self::reliable() ==> ok == (self@.log.len() + count <= usize::MAX),
    {
        // the log reaches up to an identifier exactly when it holds the
        // transaction with that identifier
        match self.tr_storage.transaction_by_id(usize::MAX - (count - 1)) {
            Err(StorageError::TransactionNotExists) => true,
            _ => false,
        }
    }

    /// Whether `create_account` can be asked to open the account
    /// `account_name`.
    pub fn can_create_account(&self, account_name: String) -> (ok: bool)
        requires
            self.inv(),
        ensures
            ok ==> self@.open_fits(account_name@),
            Self::reliable() ==> ok == self@.open_fits(account_name@),
    {
        match self.acc_storage.get_account(account_name) {
            Ok(_) => true,
            Err(StorageError::AccountNotExists) => self.has_room(1),
            Err(_) => false,
        }
    }

    /// Whether `inc_acc_balance` can be asked to pay `value` in to the
    /// account `account_name`.
    pub fn can_inc_acc_balance(&self, account_name: String, value: usize) -> (ok: bool)
        requires
            self.inv(),
        ensures
            ok ==> self@.deposit_fits(account_name@, value as nat),
            Self::reliable() ==> ok == self@.deposit_fits(account_name@, value as nat),
    {
        if value == 0 {
            return true;
        }
        match self.acc_storage.get_account(account_name) {
            Ok(acc) => value <= usize::MAX - acc.balance && self.has_room(1),
            Err(StorageError::AccountNotExists) => true,
            Err(_) => false,
        }
    }

    /// Whether `decr_acc_balance` can be asked to pay `value` out of the
    /// account `account_name`.
    pub fn can_decr_acc_balance(&self, account_name: String, value: usize) -> (ok: bool)
        requires
            self.inv(),
        ensures
            ok ==> self@.withdraw_fits(account_name@, value as nat),
            Self::reliable() ==> ok == self@.withdraw_fits(account_name@, value as nat),
    {
        if value == 0 {
            return true;
        }
        match self.acc_storage.get_account(account_name) {
            Ok(acc) => value > acc.balance || self.has_room(1),
            Err(StorageError::AccountNotExists) => true,
            Err(_) => false,
        }
    }

    /// Whether `make_transaction` can be asked to move `value` from
    /// `account_name_from` to `account_name_to`.
    pub fn can_make_transaction(
        &self,
        account_name_from: String,
        account_name_to: String,
        value: usize,
    ) -> (ok: bool)
        requires
            self.inv(),
        ensures
            ok ==> self@.transfer_fits(account_name_from@, account_name_to@, value as nat),
            Self::reliable() ==> ok == self@.transfer_fits(
                account_name_from@,
                account_name_to@,
                value as nat,
            ),
    {
        if value == 0 {
            return true;
        }
        let acc_from = match self.acc_storage.get_account(account_name_from) {
            Ok(acc) => acc,
            Err(StorageError::AccountNotExists) => {
                return true;
            },
            Err(_) => {
                return false;
            },
        };
        if value > acc_from.balance || self.tr_fee > acc_from.balance - value {
            return true;
        }
        let acc_to = match self.acc_storage.get_account(account_name_to) {
            Ok(acc) => acc,
            Err(StorageError::AccountNotExists) => {
                return true;
            },
            Err(_) => {
                return false;
            },
        };
        let fee_acc = match self.acc_storage.fee_account() {
            Ok(acc) => acc,
            Err(_) => {
                return false;
            },
        };
        proof {
            self.acc_storage.lemma_table_well_formed();
        }
        let fee = self.tr_fee;
        let to_is_from = acc_to.name == acc_from.name;
        let fee_is_from = fee_acc.name == acc_from.name;
        let fee_is_to = fee_acc.name == acc_to.name;
        // what the receiver holds once it has been paid
        let to_fits = if to_is_from {
            true
        } else {
            value <= usize::MAX - acc_to.balance
        };
        // what the fee account holds once it has got the fee
        let fee_fits = if fee == 0 || fee_is_from {
            true
        } else if fee_is_to {
            value <= usize::MAX - fee_acc.balance && fee <= usize::MAX - fee_acc.balance - value
        } else {
            fee <= usize::MAX - fee_acc.balance
        };
        let count: usize = if fee > 0 {
            2
        } else {
            1
        };
        to_fits && fee_fits && self.has_room(count)
    }

    /// The transactions listed on the account `account_name`, in the order
    /// in which they were listed.
    pub fn account_transactions(&self, account_name: String) -> (r: Result<
        Vec<Transaction>,
        Error,
    >)
        requires
            self.inv(),
        ensures
            match r {
                Ok(list) => {
                    &&& self@.accounts.contains_key(account_name@)
                    &&& transaction_views(list@) == listed(
                        self@.log,
                        self@.accounts[account_name@].trs,
                    )
                    &&& self@.agrees_with_log() ==> transaction_views(list@) == touching(
                        self@.log,
                        account_name@,
                    )
                },
                Err(e) => (e is AccountNotExists && !self@.accounts.contains_key(account_name@))
                    || e is Storage,
            },
            Self::reliable() ==> !(r matches Err(Error::Storage(_))),
            Self::reliable() ==> (r is Ok <==> self@.accounts.contains_key(account_name@)),
    {
        let acc = match self.acc_storage.get_account(account_name) {
            Ok(acc) => acc,
            Err(e) => {
                return Err(Error::from(e));
            },
        };
        let ghost ids = ids_view(acc.trs@);
        let mut list: Vec<Transaction> = Vec::new();
        let mut i: usize = 0;
        assert(ids.take(0) =~= Seq::<nat>::empty());
        assert(transaction_views(list@) =~= Seq::<TransactionView>::empty());
        while i < acc.trs.len()
            invariant
                self.inv(),
                i <= acc.trs@.len(),
                ids == ids_view(acc.trs@),
                transaction_views(list@) == listed(self@.log, ids.take(i as int)),
            decreases acc.trs@.len() - i,
        {
            proof {
                lemma_listed_push(self@.log, ids.take(i as int), ids[i as int]);
                assert(ids.take(i as int).push(ids[i as int]) =~= ids.take(i + 1));
            }
            match self.tr_storage.transaction_by_id(acc.trs[i]) {
                Ok(tr) => {
                    let ghost before = transaction_views(list@);
                    let tr = Transaction::from(tr);
                    list.push(tr);
                    assert(transaction_views(list@) =~= before.push(tr@));
                },
                Err(StorageError::TransactionNotExists) => {},
                Err(e) => {
                    return Err(Error::from(e));
                },
            }
            i += 1;
        }
        proof {
            assert(ids.take(i as int) =~= ids);
            if self@.agrees_with_log() {
                lemma_account_lists_its_transactions(self@, account_name@);
            }
        }
        Ok(list)
    }

    /// Files the account `account_name` as its transactions `trs` make it,
    /// in place of what was filed under that name, if anything was.
    pub fn restore_account_from_transactions(
        &mut self,
        account_name: String,
        trs: Vec<Transaction>,
    ) -> (r: Result<Account, Error>)
        requires
            old(self).inv(),
            foldable(transaction_views(trs@), account_name@),
        ensures
            final(self).inv(),
            match r {
                Ok(acc) => {
                    &&& acc@ == restored_account(transaction_views(trs@), account_name@)
                    &&& final(self)@ == (LedgerView {
                        accounts: old(self)@.accounts.insert(account_name@, acc@),
                        ..old(self)@
                    })
                },
                Err(e) => e is Storage && !Self::reliable() && final(self)@ == old(self)@,
            },
            Self::reliable() ==> r is Ok,
    {
        let (balance, ids) = fold_transactions(&trs, &account_name).unwrap();
        let acc = AccountTransfer { name: account_name, balance, trs: ids };
        match self.acc_storage.update_account(acc.clone()) {
            Ok(stored) => Ok(Account::from(stored)),
            Err(StorageError::AccountNotExists) => {
                match self.acc_storage.create_account(acc) {
                    Ok(stored) => Ok(Account::from(stored)),
                    Err(e) => Err(Error::from(e)),
                }
            },
            Err(e) => Err(Error::from(e)),
        }
    }

    /// Restores the account `name` from its transactions among `trs`, unless
    /// `done` says that it has been restored, and notes it in `done`.
    fn restore_once(&mut self, trs: &Vec<Transaction>, done: &mut Vec<String>, name: &String) -> (r:
        Result<(), Error>)
        requires
            old(self).inv(),
            replayable(transaction_views(trs@)),
        ensures
            final(self).inv(),
            match r {
                Ok(_) => {
                    &&& forall|n: Seq<char>|
                        names_in(final(done)@, n) <==> names_in(old(done)@, n) || n == name@
                    &&& final(self)@ == (LedgerView {
                        accounts: if names_in(old(done)@, name@) {
                            old(self)@.accounts
                        } else {
                            old(self)@.accounts.insert(
                                name@,
                                restored_account(
                                    touching(transaction_views(trs@), name@),
                                    name@,
                                ),
                            )
                        },
                        ..old(self)@
                    })
                },
                Err(e) => e is Storage && !Self::reliable(),
            },
    {
        if contains_name(done, name) {
            return Ok(());
        }
        let group = transactions_of(trs, name);
        match self.restore_account_from_transactions(name.clone(), group) {
            Ok(_) => {},
            Err(e) => {
                return Err(e);
            },
        }
        let noted = name.clone();
        done.push(noted);
        proof {
            assert forall|n: Seq<char>|
                names_in(done@, n) <==> names_in(old(done)@, n) || n == name@ by {
                if names_in(done@, n) {
                    let k = choose|k: int| 0 <= k < done@.len() && (#[trigger] done@[k])@ == n;
                    if k < old(done)@.len() {
                        assert(old(done)@[k]@ == n);
                    }
                }
                if names_in(old(done)@, n) {
                    let k = choose|k: int|
                        0 <= k < old(done)@.len() && (#[trigger] old(done)@[k])@ == n;
                    assert(done@[k]@ == n);
                }
                if n == name@ {
                    assert(done@[old(done)@.len() as int]@ == n);
                }
            }
        }
        Ok(())
    }

    /// A new ledger with the fee `tr_fee`, or no fee, rebuilt from the
    /// transactions `trs` alone: its log holds them in their order, under
    /// the identifiers that a fresh log gives them, and its table holds
    /// every account they touch, each as its transactions make it, beside
    /// the fee account.
    pub fn restore_bank_from_transactions(trs: Vec<Transaction>, tr_fee: Option<usize>) -> (r:
        Result<Bank<A, T>, Error>)
        requires
            replayable(transaction_views(trs@)),
        ensures
            match r {
                Ok(bank) => {
                    &&& bank.inv()
                    &&& default_fee_name::<A>(bank@.fee_name)
                    &&& bank@ == (LedgerView {
                        accounts: rebuilt_table(transaction_views(trs@), bank@.fee_name),
                        log: renumbered(transaction_views(trs@)),
                        fee: match tr_fee {
                            Some(fee) => fee as nat,
                            None => 0,
                        },
                        fee_name: bank@.fee_name,
                    })
                    &&& numbered(transaction_views(trs@)) ==> bank@.log == transaction_views(trs@)
                        && bank@.agrees_with_log()
                },
                Err(e) => e is Storage && !Self::reliable(),
            },
            Self::reliable() ==> r is Ok,
    {
        let acc_storage = A::default();
        let tr_storage = T::default();
        proof {
            A::lemma_default_is_fresh(acc_storage);
            T::lemma_default_is_empty(tr_storage);
        }
        let mut bank = Bank::new(acc_storage, tr_storage, tr_fee);
        let ghost all = transaction_views(trs@);
        let ghost fee = bank@.fee;
        let ghost fee_name = bank@.fee_name;

        // the log takes the transactions in their order
        let mut i: usize = 0;
        assert(bank@.log =~= renumbered(all.take(0)));
        while i < trs.len()
            invariant
                i <= trs@.len(),
                all == transaction_views(trs@),
                bank.inv(),
                bank@ == (LedgerView {
                    accounts: fresh_table(fee_name),
                    log: renumbered(all.take(i as int)),
                    fee,
                    fee_name,
                }),
            decreases trs@.len() - i,
        {
            match bank.tr_storage.create_transaction(
                trs[i].account_name.clone(),
                trs[i].action.clone(),
            ) {
                Ok(_) => {},
                Err(e) => {
                    return Err(Error::from(e));
                },
            }
            assert(bank@.log =~= renumbered(all.take(i + 1)));
            i += 1;
        }
        assert(all.take(i as int) =~= all);

        // each account that a transaction touches is folded once
        let mut done: Vec<String> = Vec::new();
        let mut i: usize = 0;
        assert(all.take(0) =~= Seq::<TransactionView>::empty());
        while i < trs.len()
            invariant
                i <= trs@.len(),
                all == transaction_views(trs@),
                replayable(all),
                bank.inv(),
                bank@.log == renumbered(all),
                bank@.fee == fee,
                bank@.fee_name == fee_name,
                forall|n: Seq<char>| names_in(done@, n) <==> touched(all.take(i as int), n),
                forall|n: Seq<char>| #[trigger]
                    bank@.accounts.dom().contains(n) <==> n == fee_name || touched(
                        all.take(i as int),
                        n,
                    ),
                forall|n: Seq<char>|
                    touched(all.take(i as int), n) ==> #[trigger] bank@.accounts[n]
                        == restored_account(touching(all, n), n),
                !touched(all.take(i as int), fee_name) ==> bank@.accounts[fee_name]
                    == fresh_table(fee_name)[fee_name],
            decreases trs@.len() - i,
        {
            let ghost tr = all[i as int];
            proof {
                assert(all.take(i as int).push(tr) =~= all.take(i + 1));
                assert forall|n: Seq<char>|
                    touched(all.take(i + 1), n) <==> touched(all.take(i as int), n) || touches(
                        tr,
                        n,
                    ) by {
                    lemma_touching_push(all.take(i as int), tr, n);
                }
            }
            match bank.restore_once(&trs, &mut done, &trs[i].account_name) {
                Ok(_) => {},
                Err(e) => {
                    return Err(e);
                },
            }
            match &trs[i].action {
                TransactionAction::Transfer { to, value: _, fee: _ } => {
                    match bank.restore_once(&trs, &mut done, to) {
                        Ok(_) => {},
                        Err(e) => {
                            return Err(e);
                        },
                    }
                },
                _ => {},
            }
            i += 1;
        }
        proof {
            assert(all.take(i as int) =~= all);
            assert forall|n: Seq<char>| #[trigger]
                bank@.accounts.dom().contains(n) == rebuilt_table(all, fee_name).dom().contains(n)
                    && (bank@.accounts.dom().contains(n) ==> bank@.accounts[n] == rebuilt_table(
                    all,
                    fee_name,
                )[n]) by {
                if !touched(all, n) {
                    lemma_untouched_is_empty(all, n);
                }
            }
            assert(bank@.accounts =~= rebuilt_table(all, fee_name));
            if numbered(all) {
                lemma_renumbered_same(all);
            }
        }
        Ok(bank)
    }
}

impl LedgerView {
    /// Why the account `name` cannot be opened, if it cannot.
    pub open spec fn open_refusal(self, name: Seq<char>) -> Option<Error> {
        if self.accounts.contains_key(name) {
            Some(Error::AccountAlreadyExists)
        } else {
            None
        }
    }

    /// Opening the account `name` stays within what the machine can hold.
    pub open spec fn open_fits(self, name: Seq<char>) -> bool {
        self.open_refusal(name) is None ==> self.log.len() < usize::MAX
    }

    /// Paying `value` in to the account `name` stays within what the
    /// machine can hold.
    pub open spec fn deposit_fits(self, name: Seq<char>, value: nat) -> bool {
        self.deposit_refusal(name, value) is None ==> self.deposited(name, value).fits(name)
    }

    /// Paying `value` out of the account `name` stays within what the
    /// machine can hold.
    pub open spec fn withdraw_fits(self, name: Seq<char>, value: nat) -> bool {
        self.withdraw_refusal(name, value) is None ==> self.withdrawn(name, value).fits(name)
    }

    /// Moving `value` from `from` to `to` stays within what the machine can
    /// hold.
    pub open spec fn transfer_fits(self, from: Seq<char>, to: Seq<char>, value: nat) -> bool {
        self.transfer_refusal(from, to, value) is None ==> self.transferred(from, to, value).fits(
            to,
        ) && self.transferred(from, to, value).fits(self.fee_name)
    }

    /// Why the account `name` cannot be read, if it cannot.
    pub open spec fn lookup_refusal(self, name: Seq<char>) -> Option<Error> {
        if self.accounts.contains_key(name) {
            None
        } else {
            Some(Error::AccountNotExists)
        }
    }

    /// Why the transaction `id` cannot be read, if it cannot.
    pub open spec fn find_refusal(self, id: nat) -> Option<Error> {
        if 1 <= id <= self.log.len() {
            None
        } else {
            Some(Error::TransactionNotExists)
        }
    }

    /// Why `value` cannot be paid in to the account `name`, if it cannot.
    pub open spec fn deposit_refusal(self, name: Seq<char>, value: nat) -> Option<Error> {
        if value == 0 {
            Some(Error::EmptyTransaction)
        } else if !self.accounts.contains_key(name) {
            Some(Error::AccountNotExists)
        } else {
            None
        }
    }

    /// Why `value` cannot be paid out of the account `name`, if it cannot.
    pub open spec fn withdraw_refusal(self, name: Seq<char>, value: nat) -> Option<Error> {
        if value == 0 {
            Some(Error::EmptyTransaction)
        } else if !self.accounts.contains_key(name) {
            Some(Error::AccountNotExists)
        } else if value > self.balance(name) {
            Some(Error::NotEnoughMoney)
        } else {
            None
        }
    }

    /// Why `value` cannot move from `from` to `to`, if it cannot.
    pub open spec fn transfer_refusal(self, from: Seq<char>, to: Seq<char>, value: nat) -> Option<
        Error,
    > {
        if value == 0 {
            Some(Error::EmptyTransaction)
        } else if !self.accounts.contains_key(from) {
            Some(Error::AccountNotExists)
        } else if value + self.fee > self.balance(from) {
            Some(Error::NotEnoughMoney)
        } else if !self.accounts.contains_key(to) {
            Some(Error::AccountNotExists)
        } else {
            None
        }
    }
}

/// At the edges of what an account holds: one more than the balance cannot
/// be paid out, the whole balance can, and nothing can be neither paid in,
/// paid out nor moved.
pub proof fn lemma_boundary_refusals(
    ledger: LedgerView,
    name: Seq<char>,
    other: Seq<char>,
)
    ensures
        ledger.accounts.contains_key(name) ==> ledger.withdraw_refusal(
            name,
            ledger.balance(name) + 1,
        ) == Some(Error::NotEnoughMoney),
        ledger.accounts.contains_key(name) && ledger.balance(name) > 0 ==> ledger.withdraw_refusal(
            name,
            ledger.balance(name),
        ) is None,
        ledger.withdraw_refusal(name, 0) == Some(Error::EmptyTransaction),
        ledger.deposit_refusal(name, 0) == Some(Error::EmptyTransaction),
        ledger.transfer_refusal(name, other, 0) == Some(Error::EmptyTransaction),
{
}

} // verus!
