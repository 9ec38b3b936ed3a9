//! Rebuilding accounts from the transaction log alone.
//!
//! The log is grouped by account: a transaction belongs to the account that
//! originated it and, where it is a transfer, to the receiver too. An
//! account is then the fold of its group, starting from nothing. This
//! module states that fold, what it takes for a log to be one that can be
//! folded, and that the table which the live operations keep is the one the
//! fold gives.

use vstd::prelude::*;
use crate::bank::{Transaction, transaction_views};
use crate::bank::model::{
    AccountView, ActionView, LedgerView, TransactionView, fresh_table, ids_view,
    lemma_ids_view_push, numbered,
};
use crate::bank::storage::TransactionAction;

verus! {

/// Whether the transaction touches the account `name`: as the account that
/// originated it, or as the receiver of a transfer.
pub open spec fn touches(tr: TransactionView, name: Seq<char>) -> bool {
    tr.account_name == name || match tr.action {
        ActionView::Transfer { to, .. } => to == name,
        _ => false,
    }
}

/// The transactions of `log` that touch the account `name`, in the order of
/// the log.
pub open spec fn touching(log: Seq<TransactionView>, name: Seq<char>) -> Seq<TransactionView>
    decreases log.len(),
{
    if log.len() == 0 {
        Seq::empty()
    } else {
        let earlier = touching(log.drop_last(), name);
        if touches(log.last(), name) {
            earlier.push(log.last())
        } else {
            earlier
        }
    }
}

/// What is on the account `name` after the transaction, if `balance` was on
/// it before. In a transfer the sender pays value and fee and the receiver
/// gets the value; an account that is both does both, and one that is
/// neither is left as it was. A payment in or out counts as the account's
/// own, whoever originated it: the transactions that are folded for an
/// account are those of its group.
pub open spec fn applied(balance: int, tr: TransactionView, name: Seq<char>) -> int {
    match tr.action {
        ActionView::Registration => balance,
        ActionView::Add(value) => balance + value,
        ActionView::Withdraw(value) => balance - value,
        ActionView::Transfer { to, value, fee } => balance - (if tr.account_name == name {
            value + fee
        } else {
            0
        }) + (if to == name {
            value
        } else {
            0
        }),
    }
}

/// Whether the account `name`, with `balance` on it, can take the
/// transaction: it pays out no more than it holds, and what it holds
/// afterwards is within what the machine can hold.
pub open spec fn allowed(balance: int, tr: TransactionView, name: Seq<char>) -> bool {
    &&& match tr.action {
        ActionView::Withdraw(value) => value <= balance,
        ActionView::Transfer { to, value, fee } => tr.account_name == name ==> value + fee
            <= balance,
        _ => true,
    }
    &&& applied(balance, tr, name) <= usize::MAX
}

/// What is on the account `name` after the transactions `trs`, in order,
/// starting from nothing.
pub open spec fn folded_balance(trs: Seq<TransactionView>, name: Seq<char>) -> int
    decreases trs.len(),
{
    if trs.len() == 0 {
        0
    } else {
        applied(folded_balance(trs.drop_last(), name), trs.last(), name)
    }
}

/// Whether the account `name` can take the transactions `trs` one after the
/// other, starting from nothing.
pub open spec fn foldable(trs: Seq<TransactionView>, name: Seq<char>) -> bool
    decreases trs.len(),
{
    trs.len() == 0 || (foldable(trs.drop_last(), name) && allowed(
        folded_balance(trs.drop_last(), name),
        trs.last(),
        name,
    ))
}

/// The identifiers of the transactions `trs`, in order.
pub open spec fn ids_of(trs: Seq<TransactionView>) -> Seq<nat> {
    trs.map_values(|tr: TransactionView| tr.id)
}

/// The account `name` as its transactions `trs` make it.
pub open spec fn restored_account(trs: Seq<TransactionView>, name: Seq<char>) -> AccountView {
    AccountView { name, balance: folded_balance(trs, name) as nat, trs: ids_of(trs) }
}

/// Whether some transaction of `log` touches the account `name`.
pub open spec fn touched(log: Seq<TransactionView>, name: Seq<char>) -> bool {
    touching(log, name).len() > 0
}

/// Whether every account can take its transactions of `log`.
pub open spec fn replayable(log: Seq<TransactionView>) -> bool {
    forall|name: Seq<char>| foldable(#[trigger] touching(log, name), name)
}

/// The table that `log` makes: the fee account and every account that a
/// transaction touches, each as its transactions make it.
pub open spec fn rebuilt_table(log: Seq<TransactionView>, fee_name: Seq<char>) -> Map<
    Seq<char>,
    AccountView,
> {
    Map::new(
        |name: Seq<char>| name == fee_name || touched(log, name),
        |name: Seq<char>| restored_account(touching(log, name), name),
    )
}

/// The same transactions under the identifiers that a fresh log gives them.
pub open spec fn renumbered(trs: Seq<TransactionView>) -> Seq<TransactionView> {
    Seq::new(
        trs.len(),
        |i: int|
            TransactionView {
                id: (i + 1) as nat,
                action: trs[i].action,
                account_name: trs[i].account_name,
            },
    )
}

impl LedgerView {
    /// The table is the one that the log makes, and the log is one that can
    /// be replayed. Every ledger that starts empty and changes through the
    /// ledger's operations alone is in this state.
    pub open spec fn agrees_with_log(self) -> bool {
        &&& numbered(self.log)
        &&& replayable(self.log)
        &&& self.accounts =~= rebuilt_table(self.log, self.fee_name)
    }
}

/// A log with one more transaction groups as before, with the transaction
/// added to the accounts it touches.
pub proof fn lemma_touching_push(log: Seq<TransactionView>, tr: TransactionView, name: Seq<char>)
    ensures
        touching(log.push(tr), name) == if touches(tr, name) {
            touching(log, name).push(tr)
        } else {
            touching(log, name)
        },
{
    assert(log.push(tr).drop_last() =~= log);
}

/// Folding one more transaction is one more step.
pub proof fn lemma_fold_push(trs: Seq<TransactionView>, tr: TransactionView, name: Seq<char>)
    ensures
        folded_balance(trs.push(tr), name) == applied(folded_balance(trs, name), tr, name),
        foldable(trs.push(tr), name) == (foldable(trs, name) && allowed(
            folded_balance(trs, name),
            tr,
            name,
        )),
        ids_of(trs.push(tr)) == ids_of(trs).push(tr.id),
{
    assert(trs.push(tr).drop_last() =~= trs);
    assert(ids_of(trs.push(tr)) =~= ids_of(trs).push(tr.id));
}

/// An account that can take its transactions never goes below nothing nor
/// above what the machine can hold.
pub proof fn lemma_foldable_in_range(trs: Seq<TransactionView>, name: Seq<char>)
    requires
        foldable(trs, name),
    ensures
        0 <= folded_balance(trs, name) <= usize::MAX,
    decreases trs.len(),
{
    if trs.len() > 0 {
        lemma_foldable_in_range(trs.drop_last(), name);
    }
}

/// An account that can take its transactions can take any first part of
/// them, and the next one after that.
pub proof fn lemma_foldable_prefix(trs: Seq<TransactionView>, name: Seq<char>, n: int)
    requires
        foldable(trs, name),
        0 <= n <= trs.len(),
    ensures
        foldable(trs.take(n), name),
        n < trs.len() ==> allowed(folded_balance(trs.take(n), name), trs[n], name),
    decreases trs.len() - n,
{
    if n == trs.len() {
        assert(trs.take(n) =~= trs);
    } else {
        lemma_foldable_prefix(trs, name, n + 1);
        assert(trs.take(n + 1).drop_last() =~= trs.take(n));
    }
}

/// What one more transaction in the log does to the group and the fold of
/// the account `name`.
pub proof fn lemma_replay_step(log: Seq<TransactionView>, tr: TransactionView, name: Seq<char>)
    ensures
        touches(tr, name) ==> {
            &&& touched(log.push(tr), name)
            &&& restored_account(touching(log.push(tr), name), name) == AccountView {
                name,
                balance: applied(folded_balance(touching(log, name), name), tr, name) as nat,
                trs: ids_of(touching(log, name)).push(tr.id),
            }
            &&& foldable(touching(log.push(tr), name), name) == (foldable(
                touching(log, name),
                name,
            ) && allowed(folded_balance(touching(log, name), name), tr, name))
        },
        !touches(tr, name) ==> touching(log.push(tr), name) == touching(log, name),
        !touched(log, name) ==> touching(log, name) == Seq::<TransactionView>::empty()
            && folded_balance(touching(log, name), name) == 0 && ids_of(touching(log, name))
            == Seq::<nat>::empty(),
{
    lemma_touching_push(log, tr, name);
    lemma_fold_push(touching(log, name), tr, name);
    if !touched(log, name) {
        assert(touching(log, name) =~= Seq::<TransactionView>::empty());
        assert(ids_of(touching(log, name)) =~= Seq::<nat>::empty());
    }
}

/// An account that no transaction touches is restored with no money and no
/// transactions.
pub proof fn lemma_untouched_is_empty(log: Seq<TransactionView>, name: Seq<char>)
    requires
        !touched(log, name),
    ensures
        restored_account(touching(log, name), name) == (AccountView {
            name,
            balance: 0,
            trs: Seq::empty(),
        }),
{
    assert(touching(log, name) =~= Seq::<TransactionView>::empty());
    assert(ids_of(touching(log, name)) =~= Seq::<nat>::empty());
}

/// A ledger that has not been used is in agreement: its table is the one
/// that the empty log makes.
pub proof fn lemma_fresh_agrees(ledger: LedgerView)
    requires
        ledger.log.len() == 0,
        ledger.accounts == fresh_table(ledger.fee_name),
    ensures
        ledger.agrees_with_log(),
{
    assert forall|n: Seq<char>| foldable(#[trigger] touching(ledger.log, n), n) by {}
    assert forall|n: Seq<char>| #[trigger]
        ledger.accounts.dom().contains(n) == rebuilt_table(
            ledger.log,
            ledger.fee_name,
        ).dom().contains(n) && (ledger.accounts.dom().contains(n) ==> ledger.accounts[n]
            == rebuilt_table(ledger.log, ledger.fee_name)[n]) by {
        lemma_untouched_is_empty(ledger.log, n);
    }
}

/// Opening an account keeps the table the one that the log makes.
pub proof fn lemma_opened_agrees(ledger: LedgerView, name: Seq<char>)
    requires
        ledger.agrees_with_log(),
        !ledger.accounts.contains_key(name),
        ledger.log.len() < usize::MAX,
    ensures
        ledger.opened(name).agrees_with_log(),
{
    let after = ledger.opened(name);
    let tr = after.log.last();
    assert forall|n: Seq<char>| foldable(#[trigger] touching(after.log, n), n) by {
        lemma_replay_step(ledger.log, tr, n);
        assert(foldable(touching(ledger.log, n), n));
        lemma_foldable_in_range(touching(ledger.log, n), n);
    }
    assert forall|n: Seq<char>| #[trigger]
        after.accounts.dom().contains(n) == rebuilt_table(after.log, after.fee_name).dom().contains(
            n,
        ) && (after.accounts.dom().contains(n) ==> after.accounts[n] == rebuilt_table(
            after.log,
            after.fee_name,
        )[n]) by {
        lemma_replay_step(ledger.log, tr, n);
        assert(ledger.accounts.contains_key(n) == rebuilt_table(
            ledger.log,
            ledger.fee_name,
        ).contains_key(n));
    }
    assert(after.accounts =~= rebuilt_table(after.log, after.fee_name));
}

/// Paying in keeps the table the one that the log makes.
pub proof fn lemma_deposited_agrees(ledger: LedgerView, name: Seq<char>, value: nat)
    requires
        ledger.agrees_with_log(),
        ledger.accounts.contains_key(name),
        ledger.deposited(name, value).fits(name),
    ensures
        ledger.deposited(name, value).agrees_with_log(),
{
    let after = ledger.deposited(name, value);
    let tr = after.log.last();
    assert(foldable(touching(ledger.log, name), name));
    lemma_foldable_in_range(touching(ledger.log, name), name);
    assert(ledger.accounts[name] == rebuilt_table(ledger.log, ledger.fee_name)[name]);
    assert forall|n: Seq<char>| foldable(#[trigger] touching(after.log, n), n) by {
        lemma_replay_step(ledger.log, tr, n);
        assert(foldable(touching(ledger.log, n), n));
    }
    assert forall|n: Seq<char>| #[trigger]
        after.accounts.dom().contains(n) == rebuilt_table(after.log, after.fee_name).dom().contains(
            n,
        ) && (after.accounts.dom().contains(n) ==> after.accounts[n] == rebuilt_table(
            after.log,
            after.fee_name,
        )[n]) by {
        lemma_replay_step(ledger.log, tr, n);
        assert(ledger.accounts.contains_key(n) == rebuilt_table(
            ledger.log,
            ledger.fee_name,
        ).contains_key(n));
    }
    assert(after.accounts =~= rebuilt_table(after.log, after.fee_name));
}

/// Paying out keeps the table the one that the log makes.
pub proof fn lemma_withdrawn_agrees(ledger: LedgerView, name: Seq<char>, value: nat)
    requires
        ledger.agrees_with_log(),
        ledger.accounts.contains_key(name),
        value <= ledger.balance(name),
        ledger.log.len() < usize::MAX,
    ensures
        ledger.withdrawn(name, value).agrees_with_log(),
{
    let after = ledger.withdrawn(name, value);
    let tr = after.log.last();
    assert(foldable(touching(ledger.log, name), name));
    lemma_foldable_in_range(touching(ledger.log, name), name);
    assert(ledger.accounts[name] == rebuilt_table(ledger.log, ledger.fee_name)[name]);
    assert forall|n: Seq<char>| foldable(#[trigger] touching(after.log, n), n) by {
        lemma_replay_step(ledger.log, tr, n);
        assert(foldable(touching(ledger.log, n), n));
    }
    assert forall|n: Seq<char>| #[trigger]
        after.accounts.dom().contains(n) == rebuilt_table(after.log, after.fee_name).dom().contains(
            n,
        ) && (after.accounts.dom().contains(n) ==> after.accounts[n] == rebuilt_table(
            after.log,
            after.fee_name,
        )[n]) by {
        lemma_replay_step(ledger.log, tr, n);
        assert(ledger.accounts.contains_key(n) == rebuilt_table(
            ledger.log,
            ledger.fee_name,
        ).contains_key(n));
    }
    assert(after.accounts =~= rebuilt_table(after.log, after.fee_name));
}

/// Moving money from one account to another keeps the table the one that
/// the log makes.
pub proof fn lemma_moved_agrees(ledger: LedgerView, from: Seq<char>, to: Seq<char>, value: nat)
    requires
        ledger.agrees_with_log(),
        ledger.accounts.contains_key(from),
        ledger.accounts.contains_key(to),
        value + ledger.fee <= ledger.balance(from),
        ledger.moved(from, to, value).fits(to),
    ensures
        ledger.moved(from, to, value).agrees_with_log(),
{
    let after = ledger.moved(from, to, value);
    let tr = after.log.last();
    assert(foldable(touching(ledger.log, from), from));
    assert(foldable(touching(ledger.log, to), to));
    lemma_foldable_in_range(touching(ledger.log, from), from);
    lemma_foldable_in_range(touching(ledger.log, to), to);
    assert(ledger.accounts[from] == rebuilt_table(ledger.log, ledger.fee_name)[from]);
    assert(ledger.accounts[to] == rebuilt_table(ledger.log, ledger.fee_name)[to]);
    assert forall|n: Seq<char>| foldable(#[trigger] touching(after.log, n), n) by {
        lemma_replay_step(ledger.log, tr, n);
        assert(foldable(touching(ledger.log, n), n));
    }
    assert forall|n: Seq<char>| #[trigger]
        after.accounts.dom().contains(n) == rebuilt_table(after.log, after.fee_name).dom().contains(
            n,
        ) && (after.accounts.dom().contains(n) ==> after.accounts[n] == rebuilt_table(
            after.log,
            after.fee_name,
        )[n]) by {
        lemma_replay_step(ledger.log, tr, n);
        assert(ledger.accounts.contains_key(n) == rebuilt_table(
            ledger.log,
            ledger.fee_name,
        ).contains_key(n));
    }
    assert(after.accounts =~= rebuilt_table(after.log, after.fee_name));
}

/// A transfer keeps the table the one that the log makes.
pub proof fn lemma_transferred_agrees(
    ledger: LedgerView,
    from: Seq<char>,
    to: Seq<char>,
    value: nat,
)
    requires
        ledger.agrees_with_log(),
        ledger.accounts.contains_key(from),
        ledger.accounts.contains_key(to),
        value + ledger.fee <= ledger.balance(from),
        ledger.transferred(from, to, value).fits(to),
        ledger.transferred(from, to, value).fits(ledger.fee_name),
    ensures
        ledger.transferred(from, to, value).agrees_with_log(),
{
    lemma_moved_agrees(ledger, from, to, value);
    if ledger.fee > 0 {
        let moved = ledger.moved(from, to, value);
        assert(moved.accounts.contains_key(ledger.fee_name));
        lemma_deposited_agrees(moved, ledger.fee_name, ledger.fee);
    }
}

/// The transactions that the identifiers `ids` name in `log`, in the order
/// of `ids`; an identifier that names none is passed over.
pub open spec fn listed(log: Seq<TransactionView>, ids: Seq<nat>) -> Seq<TransactionView>
    decreases ids.len(),
{
    if ids.len() == 0 {
        Seq::empty()
    } else {
        let earlier = listed(log, ids.drop_last());
        if 1 <= ids.last() <= log.len() {
            earlier.push(log[ids.last() - 1])
        } else {
            earlier
        }
    }
}

/// Listing one more identifier is one more step.
pub proof fn lemma_listed_push(log: Seq<TransactionView>, ids: Seq<nat>, id: nat)
    ensures
        listed(log, ids.push(id)) == if 1 <= id <= log.len() {
            listed(log, ids).push(log[id - 1])
        } else {
            listed(log, ids)
        },
{
    assert(ids.push(id).drop_last() =~= ids);
}

/// In a log whose identifiers are its positions, the identifiers of the
/// transactions that touch an account, within any first part of the log,
/// name those transactions.
pub proof fn lemma_listed_touching(log: Seq<TransactionView>, name: Seq<char>, n: int)
    requires
        numbered(log),
        0 <= n <= log.len(),
    ensures
        listed(log, ids_of(touching(log.take(n), name))) == touching(log.take(n), name),
    decreases n,
{
    if n == 0 {
        assert(log.take(0) =~= Seq::<TransactionView>::empty());
        assert(ids_of(touching(log.take(0), name)) =~= Seq::<nat>::empty());
    } else {
        lemma_listed_touching(log, name, n - 1);
        let tr = log[n - 1];
        assert(log.take(n - 1).push(tr) =~= log.take(n));
        lemma_touching_push(log.take(n - 1), tr, name);
        if touches(tr, name) {
            lemma_fold_push(touching(log.take(n - 1), name), tr, name);
            lemma_listed_push(log, ids_of(touching(log.take(n - 1), name)), tr.id);
        }
    }
}

/// Where the table is the one that the log makes, the transactions listed
/// on an account are those of the log that touch it, in the order of the
/// log.
pub proof fn lemma_account_lists_its_transactions(ledger: LedgerView, name: Seq<char>)
    requires
        ledger.agrees_with_log(),
        ledger.accounts.contains_key(name),
    ensures
        listed(ledger.log, ledger.accounts[name].trs) == touching(ledger.log, name),
{
    lemma_listed_touching(ledger.log, name, ledger.log.len() as int);
    assert(ledger.log.take(ledger.log.len() as int) =~= ledger.log);
    assert(ledger.accounts[name] == rebuilt_table(ledger.log, ledger.fee_name)[name]);
}

/// Replaying the log of a ledger whose table is the one that its log makes
/// gives the ledger back: the log can be replayed, it keeps its
/// identifiers, and every account comes out with the balance and the
/// transactions that it has.
pub proof fn lemma_replay_gives_ledger_back(live: LedgerView)
    requires
        live.agrees_with_log(),
    ensures
        replayable(live.log),
        renumbered(live.log) == live.log,
        rebuilt_table(live.log, live.fee_name) == live.accounts,
        forall|name: Seq<char>| #[trigger]
            live.accounts.contains_key(name) ==> live.accounts[name] == restored_account(
                touching(live.log, name),
                name,
            ),
{
    lemma_renumbered_same(live.log);
}

/// The transactions that touch an account within a first part of the log
/// are a first part of those that touch it within the whole log.
pub proof fn lemma_touching_prefix(log: Seq<TransactionView>, name: Seq<char>, n: int) -> (k: int)
    requires
        0 <= n <= log.len(),
    ensures
        0 <= k <= touching(log, name).len(),
        touching(log.take(n), name) == touching(log, name).take(k),
    decreases log.len() - n,
{
    if n == log.len() {
        assert(log.take(n) =~= log);
        let k = touching(log, name).len() as int;
        assert(touching(log, name).take(k) =~= touching(log, name));
        k
    } else {
        let k = lemma_touching_prefix(log, name, n + 1);
        assert(log.take(n).push(log[n]) =~= log.take(n + 1));
        lemma_touching_push(log.take(n), log[n], name);
        if touches(log[n], name) {
            assert(touching(log, name).take(k).drop_last() =~= touching(log, name).take(k - 1));
            assert(touching(log.take(n), name).push(log[n]).drop_last() =~= touching(
                log.take(n),
                name,
            ));
            k - 1
        } else {
            k
        }
    }
}

/// Where the table is the one that the log makes, no account has held less
/// than nothing, nor more than the machine can hold, at any point of the
/// log.
pub proof fn lemma_balance_never_negative(ledger: LedgerView, name: Seq<char>, n: int)
    requires
        ledger.agrees_with_log(),
        0 <= n <= ledger.log.len(),
    ensures
        0 <= folded_balance(touching(ledger.log.take(n), name), name) <= usize::MAX,
        n == ledger.log.len() && ledger.accounts.contains_key(name) ==> ledger.balance(name)
            == folded_balance(touching(ledger.log.take(n), name), name),
{
    let group = touching(ledger.log, name);
    assert(foldable(group, name));
    let k = lemma_touching_prefix(ledger.log, name, n);
    lemma_foldable_prefix(group, name, k);
    lemma_foldable_in_range(group.take(k), name);
    if n == ledger.log.len() {
        assert(ledger.log.take(n) =~= ledger.log);
        if ledger.accounts.contains_key(name) {
            assert(ledger.accounts[name] == rebuilt_table(ledger.log, ledger.fee_name)[name]);
        }
    }
}

/// A numbered log keeps its identifiers when it is appended again to a
/// fresh log.
pub proof fn lemma_renumbered_same(log: Seq<TransactionView>)
    requires
        numbered(log),
    ensures
        renumbered(log) == log,
{
    assert(renumbered(log) =~= log);
}

/// Whether `name` is among the names `list`.
pub open spec fn names_in(list: Seq<String>, name: Seq<char>) -> bool {
    exists|k: int| 0 <= k < list.len() && (#[trigger] list[k])@ == name
}

/// Whether `name` is among the names `list`.
pub fn contains_name(list: &Vec<String>, name: &String) -> (r: bool)
    ensures
        r == names_in(list@, name@),
{
    let mut i: usize = 0;
    while i < list.len()
        invariant
            i <= list@.len(),
            forall|k: int| 0 <= k < i ==> (#[trigger] list@[k])@ != name@,
        decreases list@.len() - i,
    {
        if list[i] == *name {
            return true;
        }
        i += 1;
    }
    false
}

/// Whether the transaction touches the account `name`.
pub fn touches_account(tr: &Transaction, name: &String) -> (r: bool)
    ensures
        r == touches(tr@, name@),
{
    if tr.account_name == *name {
        return true;
    }
    match &tr.action {
        TransactionAction::Transfer { to, value: _, fee: _ } => *to == *name,
        _ => false,
    }
}

/// The transactions of `trs` that touch the account `name`, in order.
pub fn transactions_of(trs: &Vec<Transaction>, name: &String) -> (group: Vec<Transaction>)
    ensures
        transaction_views(group@) == touching(transaction_views(trs@), name@),
{
    let ghost all = transaction_views(trs@);
    let mut group: Vec<Transaction> = Vec::new();
    let mut i: usize = 0;
    assert(all.take(0) =~= Seq::<TransactionView>::empty());
    assert(transaction_views(group@) =~= Seq::<TransactionView>::empty());
    while i < trs.len()
        invariant
            i <= trs@.len(),
            all == transaction_views(trs@),
            transaction_views(group@) == touching(all.take(i as int), name@),
        decreases trs@.len() - i,
    {
        proof {
            lemma_touching_push(all.take(i as int), all[i as int], name@);
            assert(all.take(i as int).push(all[i as int]) =~= all.take(i + 1));
        }
        if touches_account(&trs[i], name) {
            let ghost before = transaction_views(group@);
            let tr = trs[i].clone();
            group.push(tr);
            assert(transaction_views(group@) =~= before.push(tr@));
        }
        i += 1;
    }
    assert(all.take(i as int) =~= all);
    group
}

/// Folds the transactions `trs` for the account `name`, starting from
/// nothing: the balance they leave, and their identifiers in order. There
/// is no result where the account cannot take them.
pub fn fold_transactions(trs: &Vec<Transaction>, name: &String) -> (r: Option<(usize, Vec<usize>)>)
    ensures
        r is Some <==> foldable(transaction_views(trs@), name@),
        r matches Some((balance, ids)) ==> balance == folded_balance(
            transaction_views(trs@),
            name@,
        ) && ids_view(ids@) == ids_of(transaction_views(trs@)),
{
    let ghost all = transaction_views(trs@);
    let mut balance: usize = 0;
    let mut ids: Vec<usize> = Vec::new();
    let mut i: usize = 0;
    assert(all.take(0) =~= Seq::<TransactionView>::empty());
    assert(ids_view(ids@) =~= ids_of(all.take(0)));
    while i < trs.len()
        invariant
            i <= trs@.len(),
            all == transaction_views(trs@),
            foldable(all.take(i as int), name@),
            balance == folded_balance(all.take(i as int), name@),
            ids_view(ids@) == ids_of(all.take(i as int)),
        decreases trs@.len() - i,
    {
        let tr = &trs[i];
        proof {
            lemma_fold_push(all.take(i as int), all[i as int], name@);
            assert(all.take(i as int).push(all[i as int]) =~= all.take(i + 1));
            lemma_ids_view_push(ids@, tr.id);
            if foldable(all, name@) {
                lemma_foldable_prefix(all, name@, i + 1);
            }
        }
        match &tr.action {
            TransactionAction::Registration => {},
            TransactionAction::Add(value) => {
                if *value > usize::MAX - balance {
                    return None;
                }
                balance += *value;
            },
            TransactionAction::Withdraw(value) => {
                if *value > balance {
                    return None;
                }
                balance -= *value;
            },
            TransactionAction::Transfer { to, value, fee } => {
                if tr.account_name == *name {
                    if *value > balance || *fee > balance - *value {
                        return None;
                    }
                    balance -= *value + *fee;
                }
                if *to == *name {
                    if *value > usize::MAX - balance {
                        return None;
                    }
                    balance += *value;
                }
            },
        }
        ids.push(tr.id);
        i += 1;
    }
    assert(all.take(i as int) =~= all);
    Some((balance, ids))
}

/// Whether the account `name` can take its transactions among `trs`.
fn account_is_replayable(trs: &Vec<Transaction>, name: &String) -> (r: bool)
    ensures
        r == foldable(touching(transaction_views(trs@), name@), name@),
{
    let group = transactions_of(trs, name);
    fold_transactions(&group, name).is_some()
}

/// Whether every account can take its transactions among `trs`: whether a
/// ledger can be rebuilt from them.
pub fn is_replayable(trs: &Vec<Transaction>) -> (r: bool)
    ensures
        r == replayable(transaction_views(trs@)),
{
    let ghost all = transaction_views(trs@);
    let mut i: usize = 0;
    assert(all.take(0) =~= Seq::<TransactionView>::empty());
    while i < trs.len()
        invariant
            i <= trs@.len(),
            all == transaction_views(trs@),
            forall|n: Seq<char>|
                touched(all.take(i as int), n) ==> foldable(#[trigger] touching(all, n), n),
        decreases trs@.len() - i,
    {
        let ghost tr = all[i as int];
        proof {
            assert(all.take(i as int).push(tr) =~= all.take(i + 1));
            assert forall|n: Seq<char>|
                touched(all.take(i + 1), n) <==> touched(all.take(i as int), n) || touches(
                    tr,
                    n,
                ) by {
                lemma_touching_push(all.take(i as int), tr, n);
            }
        }
        if !account_is_replayable(trs, &trs[i].account_name) {
            return false;
        }
        match &trs[i].action {
            TransactionAction::Transfer { to, value: _, fee: _ } => {
                if !account_is_replayable(trs, to) {
                    return false;
                }
            },
            _ => {},
        }
        i += 1;
    }
    proof {
        assert(all.take(i as int) =~= all);
        assert forall|n: Seq<char>| foldable(#[trigger] touching(all, n), n) by {
            if !touched(all, n) {
                assert(touching(all, n).len() == 0);
            }
        }
    }
    true
}

} // verus!
