//! The mathematical model of the ledger's records: what an account and a
//! transaction are, independent of how a backend stores them.

use vstd::prelude::*;

verus! {

/// An account as the contracts see it.
pub struct AccountView {
    pub name: Seq<char>,
    pub balance: nat,
    pub trs: Seq<nat>,
}

/// What a transaction did.
pub enum ActionView {
    Registration,
    Add(nat),
    Withdraw(nat),
    Transfer { to: Seq<char>, value: nat, fee: nat },
}

/// A transaction as the contracts see it.
pub struct TransactionView {
    pub id: nat,
    pub action: ActionView,
    pub account_name: Seq<char>,
}

/// A list of transaction identifiers as mathematical integers.
pub open spec fn ids_view(ids: Seq<usize>) -> Seq<nat> {
    ids.map_values(|id: usize| id as nat)
}

/// Appending an identifier commutes with taking the view.
pub proof fn lemma_ids_view_push(ids: Seq<usize>, id: usize)
    ensures
        ids_view(ids.push(id)) == ids_view(ids).push(id as nat),
{
    assert(ids_view(ids.push(id)) =~= ids_view(ids).push(id as nat));
}

/// Every transaction's identifier is its position in the log, counted from 1:
/// identifiers rise by one, none is skipped and none is used twice.
pub open spec fn numbered(log: Seq<TransactionView>) -> bool {
    forall|i: int| 0 <= i < log.len() ==> (#[trigger] log[i]).id == i + 1
}

/// In a log whose identifiers are its positions, a later transaction has a
/// larger identifier than an earlier one, the next one the next larger, and
/// no two have the same.
pub proof fn lemma_numbered_ids_rise(log: Seq<TransactionView>, i: int, j: int)
    requires
        numbered(log),
        0 <= i < j < log.len(),
    ensures
        log[i].id < log[j].id,
        j == i + 1 ==> log[j].id == log[i].id + 1,
        log[0].id == 1,
{
}

/// The transactions of `log` that the account `name` originated, in the
/// order of the log.
pub open spec fn originated_by(log: Seq<TransactionView>, name: Seq<char>) -> Seq<TransactionView>
    decreases log.len(),
{
    if log.len() == 0 {
        Seq::empty()
    } else {
        let earlier = originated_by(log.drop_last(), name);
        if log.last().account_name == name {
            earlier.push(log.last())
        } else {
            earlier
        }
    }
}

/// Every record of the table is filed under its own name.
pub open spec fn keyed_by_name(table: Map<Seq<char>, AccountView>) -> bool {
    forall|name: Seq<char>| #[trigger]
        table.contains_key(name) ==> table[name].name == name
}

/// `list` holds every record of `table` exactly once, in some order.
pub open spec fn lists_table(list: Seq<AccountView>, table: Map<Seq<char>, AccountView>) -> bool {
    &&& forall|i: int|
        0 <= i < list.len() ==> table.contains_key((#[trigger] list[i]).name) && table[list[i].name]
            == list[i]
    &&& forall|i: int, j: int|
        0 <= i < j < list.len() ==> (#[trigger] list[i]).name != (#[trigger] list[j]).name
    &&& forall|name: Seq<char>| #[trigger]
        table.contains_key(name) ==> exists|i: int|
            0 <= i < list.len() && (#[trigger] list[i]).name == name
}

/// The table of a ledger that has not been used: the fee account, with no
/// money on it and no transactions, and nothing else.
pub open spec fn fresh_table(fee_name: Seq<char>) -> Map<Seq<char>, AccountView> {
    Map::<Seq<char>, AccountView>::empty().insert(
        fee_name,
        AccountView { name: fee_name, balance: 0, trs: Seq::empty() },
    )
}

/// The whole ledger as the contracts see it: the account table, the
/// transaction log, the flat fee of a transfer and the name of the account
/// that collects it.
pub struct LedgerView {
    pub accounts: Map<Seq<char>, AccountView>,
    pub log: Seq<TransactionView>,
    pub fee: nat,
    pub fee_name: Seq<char>,
}

impl AccountView {
    /// A new account: no money, and the registration as its only transaction.
    pub open spec fn registered(name: Seq<char>, id: nat) -> AccountView {
        AccountView { name, balance: 0, trs: seq![id] }
    }

    /// The account after transaction `id` has put `amount` on it.
    pub open spec fn credited(self, amount: nat, id: nat) -> AccountView {
        AccountView { name: self.name, balance: self.balance + amount, trs: self.trs.push(id) }
    }

    /// The account after transaction `id` has taken `amount` from it.
    pub open spec fn debited(self, amount: nat, id: nat) -> AccountView {
        AccountView {
            name: self.name,
            balance: (self.balance - amount) as nat,
            trs: self.trs.push(id),
        }
    }

    /// The account with `amount` more on it and the same transactions.
    pub open spec fn topped_up(self, amount: nat) -> AccountView {
        AccountView { name: self.name, balance: self.balance + amount, trs: self.trs }
    }
}

impl LedgerView {
    /// The identifier that the next transaction gets.
    pub open spec fn next_id(self) -> nat {
        self.log.len() + 1
    }

    /// The balance of the account `name`.
    pub open spec fn balance(self, name: Seq<char>) -> nat {
        self.accounts[name].balance
    }

    /// The ledger after the account `name` has been opened.
    pub open spec fn opened(self, name: Seq<char>) -> LedgerView {
        LedgerView {
            accounts: self.accounts.insert(name, AccountView::registered(name, self.next_id())),
            log: self.log.push(
                TransactionView {
                    id: self.next_id(),
                    action: ActionView::Registration,
                    account_name: name,
                },
            ),
            fee: self.fee,
            fee_name: self.fee_name,
        }
    }

    /// The ledger after `value` has been paid in to the account `name`.
    pub open spec fn deposited(self, name: Seq<char>, value: nat) -> LedgerView {
        LedgerView {
            accounts: self.accounts.insert(
                name,
                self.accounts[name].credited(value, self.next_id()),
            ),
            log: self.log.push(
                TransactionView {
                    id: self.next_id(),
                    action: ActionView::Add(value),
                    account_name: name,
                },
            ),
            fee: self.fee,
            fee_name: self.fee_name,
        }
    }

    /// The ledger after `value` has been paid out of the account `name`.
    pub open spec fn withdrawn(self, name: Seq<char>, value: nat) -> LedgerView {
        LedgerView {
            accounts: self.accounts.insert(
                name,
                self.accounts[name].debited(value, self.next_id()),
            ),
            log: self.log.push(
                TransactionView {
                    id: self.next_id(),
                    action: ActionView::Withdraw(value),
                    account_name: name,
                },
            ),
            fee: self.fee,
            fee_name: self.fee_name,
        }
    }

    /// The table after the sender of a transfer has paid `value` and the fee.
    pub open spec fn sender_paid(self, from: Seq<char>, value: nat) -> Map<Seq<char>, AccountView> {
        self.accounts.insert(from, self.accounts[from].debited(value + self.fee, self.next_id()))
    }

    /// The table after the receiver of a transfer has got `value` as well.
    /// Sender and receiver may be one account: the transfer is then listed
    /// on it once.
    pub open spec fn receiver_paid(self, from: Seq<char>, to: Seq<char>, value: nat) -> Map<
        Seq<char>,
        AccountView,
    > {
        let paid = self.sender_paid(from, value);
        paid.insert(
            to,
            if to == from {
                paid[to].topped_up(value)
            } else {
                paid[to].credited(value, self.next_id())
            },
        )
    }

    /// The ledger after `value` has moved from `from` to `to` and `from` has
    /// paid the fee, before the fee account has got it.
    pub open spec fn moved(self, from: Seq<char>, to: Seq<char>, value: nat) -> LedgerView {
        LedgerView {
            accounts: self.receiver_paid(from, to, value),
            log: self.log.push(
                TransactionView {
                    id: self.next_id(),
                    action: ActionView::Transfer { to, value, fee: self.fee },
                    account_name: from,
                },
            ),
            fee: self.fee,
            fee_name: self.fee_name,
        }
    }

    /// The ledger after `value` has moved from `from` to `to` and, where the
    /// fee is not zero, the fee from `from` to the fee account, which gets it
    /// under a transaction of its own.
    pub open spec fn transferred(self, from: Seq<char>, to: Seq<char>, value: nat) -> LedgerView {
        let moved = self.moved(from, to, value);
        if self.fee > 0 {
            moved.deposited(self.fee_name, self.fee)
        } else {
            moved
        }
    }
}

impl LedgerView {
    /// This ledger is a later state of `earlier`: the fee and the fee account
    /// are the same, no account has gone, the log has only grown at its end,
    /// and every transaction that it has gained is of an account that is
    /// filed.
    pub open spec fn continues(self, earlier: LedgerView) -> bool {
        &&& self.fee == earlier.fee
        &&& self.fee_name == earlier.fee_name
        &&& forall|name: Seq<char>| #[trigger]
            earlier.accounts.contains_key(name) ==> self.accounts.contains_key(name)
        &&& earlier.log.len() <= self.log.len()
        &&& forall|i: int| 0 <= i < earlier.log.len() ==> self.log[i] == earlier.log[i]
        &&& forall|i: int|
            earlier.log.len() <= i < self.log.len() ==> self.accounts.contains_key(
                (#[trigger] self.log[i]).account_name,
            )
    }

    /// The log and the balance of `name` are within what the machine can
    /// hold.
    pub open spec fn fits(self, name: Seq<char>) -> bool {
        self.log.len() <= usize::MAX && self.balance(name) <= usize::MAX
    }
}

/// A transfer between three different accounts, the fee account the third,
/// leaves the sum of their balances as it was: the fee is paid by the
/// sender, not made from nothing.
pub proof fn lemma_transfer_conserves(
    ledger: LedgerView,
    from: Seq<char>,
    to: Seq<char>,
    value: nat,
)
    requires
        value + ledger.fee <= ledger.balance(from),
        from != to,
        from != ledger.fee_name,
        to != ledger.fee_name,
    ensures
        ledger.transferred(from, to, value).balance(from) + ledger.transferred(
            from,
            to,
            value,
        ).balance(to) + ledger.transferred(from, to, value).balance(ledger.fee_name)
            == ledger.balance(from) + ledger.balance(to) + ledger.balance(ledger.fee_name),
        ledger.transferred(from, to, value).balance(from) == ledger.balance(from) - value
            - ledger.fee,
        ledger.transferred(from, to, value).balance(to) == ledger.balance(to) + value,
        ledger.transferred(from, to, value).balance(ledger.fee_name) == ledger.balance(
            ledger.fee_name,
        ) + ledger.fee,
{
}

/// A payment in or out changes what is on its account by the amount paid
/// and leaves every other account as it was; a transfer changes no account
/// but the sender, the receiver and the fee account; and none of the three
/// opens or closes an account.
pub proof fn lemma_other_accounts_untouched(
    ledger: LedgerView,
    from: Seq<char>,
    to: Seq<char>,
    value: nat,
    other: Seq<char>,
)
    requires
        ledger.accounts.contains_key(from),
        ledger.accounts.contains_key(to),
        ledger.accounts.contains_key(ledger.fee_name),
        value <= ledger.balance(from),
    ensures
        ledger.deposited(from, value).balance(from) == ledger.balance(from) + value,
        ledger.withdrawn(from, value).balance(from) == ledger.balance(from) - value,
        other != from ==> ledger.deposited(from, value).accounts[other] == ledger.accounts[other]
            && ledger.withdrawn(from, value).accounts[other] == ledger.accounts[other],
        other != from && other != to && other != ledger.fee_name ==> ledger.transferred(
            from,
            to,
            value,
        ).accounts[other] == ledger.accounts[other],
        ledger.deposited(from, value).accounts.dom() == ledger.accounts.dom(),
        ledger.withdrawn(from, value).accounts.dom() == ledger.accounts.dom(),
        ledger.transferred(from, to, value).accounts.dom() == ledger.accounts.dom(),
{
    assert(ledger.deposited(from, value).accounts.dom() =~= ledger.accounts.dom());
    assert(ledger.withdrawn(from, value).accounts.dom() =~= ledger.accounts.dom());
    assert(ledger.transferred(from, to, value).accounts.dom() =~= ledger.accounts.dom());
}

} // verus!
