//! What the ledger answers to each kind of request.
//!
//! A request arrives with its payload already read, or with none where the
//! payload could not be read. Each function here carries one kind of
//! request out on the ledger and gives the payload of the answer: of the
//! success, or of the failure with what the error says. The operations that
//! write take the ledger exclusively; those that only read share it.

use vstd::prelude::*;
use crate::bank::{Bank, Error, Transaction, transaction_views};
use crate::bank::model::{AccountView, LedgerView};
use crate::bank::replay::{listed, touching};
use crate::bank::storage::{AccountStorage, TransactionStorage};
use crate::protocol::types::{
    RequestAccountTransactionsPayload, RequestBalancePayload, RequestCreateAccountPayload,
    RequestDecrBalancePayload, RequestIncrBalancePayload, RequestMakeTransactionPayload,
    RequestTransactionByIdPayload, ResponseAccountPayload, ResponseErrorPayload,
    TransactionSerializer, serializer_views,
};

verus! {

/// Whether `text` is what a storage failure says.
pub open spec fn is_storage_failure(text: Seq<char>) -> bool {
    exists|detail: String| text == (#[trigger] Error::message_text(Error::Storage(detail)))
}

/// Whether `answer` tells why a request with a readable payload failed:
/// the ledger turned it down for `refusal` and `unchanged` holds, or a
/// backend that is not reliable failed.
pub open spec fn tells(
    answer: ResponseErrorPayload,
    refusal: Option<Error>,
    unchanged: bool,
    reliable: bool,
) -> bool {
    ||| refusal matches Some(e) && answer.error@ == e.message_text() && unchanged
    ||| !reliable && is_storage_failure(answer.error@)
}

/// Whether `answer` says that the payload of the request could not be read.
pub open spec fn says_invalid_format(answer: ResponseErrorPayload) -> bool {
    answer.error@ == "InvalidFormat"@
}

/// The payload that reports the error `e`.
pub fn error_payload(e: Error) -> (answer: ResponseErrorPayload)
    ensures
        answer.error@ == e.message_text(),
        e is Storage ==> is_storage_failure(answer.error@),
{
    ResponseErrorPayload::from(e)
}

/// Opens the account that the payload names.
pub fn handle_create_account<A: AccountStorage, T: TransactionStorage>(
    bank: &mut Bank<A, T>,
    payload: Option<RequestCreateAccountPayload>,
) -> (r: Result<ResponseAccountPayload, ResponseErrorPayload>)
    requires
        old(bank).inv(),
        payload matches Some(p) ==> old(bank)@.open_fits(p.account_name@),
    ensures
        final(bank).inv(),
        match payload {
            None => r matches Err(answer) && says_invalid_format(answer) && final(bank)@ == old(
                bank,
            )@,
            Some(p) => match r {
                Ok(acc) => {
                    &&& old(bank)@.open_refusal(p.account_name@) is None
                    &&& acc@ == AccountView::registered(p.account_name@, old(bank)@.next_id())
                    &&& final(bank)@ == old(bank)@.opened(p.account_name@)
                },
                Err(answer) => tells(
                    answer,
                    old(bank)@.open_refusal(p.account_name@),
                    final(bank)@ == old(bank)@,
                    Bank::<A, T>::reliable(),
                ),
            },
        },
        Bank::<A, T>::reliable() ==> (r is Ok <==> (payload matches Some(p)
            && old(bank)@.open_refusal(p.account_name@) is None)),
{
    let payload = match payload {
        Some(payload) => payload,
        None => {
            return Err(ResponseErrorPayload::invalid_format());
        },
    };
    match bank.create_account(payload.account_name) {
        Ok(acc) => Ok(ResponseAccountPayload::from(acc)),
        Err(e) => Err(error_payload(e)),
    }
}

/// Pays in what the payload says and gives the identifier of the
/// transaction.
pub fn handle_incr_balance<A: AccountStorage, T: TransactionStorage>(
    bank: &mut Bank<A, T>,
    payload: Option<RequestIncrBalancePayload>,
) -> (r: Result<usize, ResponseErrorPayload>)
    requires
        old(bank).inv(),
        payload matches Some(p) ==> old(bank)@.deposit_fits(p.account_name@, p.value as nat),
    ensures
        final(bank).inv(),
        match payload {
            None => r matches Err(answer) && says_invalid_format(answer) && final(bank)@ == old(
                bank,
            )@,
            Some(p) => match r {
                Ok(id) => {
                    &&& old(bank)@.deposit_refusal(p.account_name@, p.value as nat) is None
                    &&& id == old(bank)@.next_id()
                    &&& final(bank)@ == old(bank)@.deposited(p.account_name@, p.value as nat)
                },
                Err(answer) => tells(
                    answer,
                    old(bank)@.deposit_refusal(p.account_name@, p.value as nat),
                    final(bank)@ == old(bank)@,
                    Bank::<A, T>::reliable(),
                ),
            },
        },
        Bank::<A, T>::reliable() ==> (r is Ok <==> (payload matches Some(p)
            && old(bank)@.deposit_refusal(p.account_name@, p.value as nat) is None)),
{
    let payload = match payload {
        Some(payload) => payload,
        None => {
            return Err(ResponseErrorPayload::invalid_format());
        },
    };
    match bank.inc_acc_balance(payload.account_name, payload.value) {
        Ok(id) => Ok(id),
        Err(e) => Err(error_payload(e)),
    }
}

/// Pays out what the payload says and gives the identifier of the
/// transaction.
pub fn handle_decr_balance<A: AccountStorage, T: TransactionStorage>(
    bank: &mut Bank<A, T>,
    payload: Option<RequestDecrBalancePayload>,
) -> (r: Result<usize, ResponseErrorPayload>)
    requires
        old(bank).inv(),
        payload matches Some(p) ==> old(bank)@.withdraw_fits(p.account_name@, p.value as nat),
    ensures
        final(bank).inv(),
        match payload {
            None => r matches Err(answer) && says_invalid_format(answer) && final(bank)@ == old(
                bank,
            )@,
            Some(p) => match r {
                Ok(id) => {
                    &&& old(bank)@.withdraw_refusal(p.account_name@, p.value as nat) is None
                    &&& id == old(bank)@.next_id()
                    &&& final(bank)@ == old(bank)@.withdrawn(p.account_name@, p.value as nat)
                },
                Err(answer) => tells(
                    answer,
                    old(bank)@.withdraw_refusal(p.account_name@, p.value as nat),
                    final(bank)@ == old(bank)@,
                    Bank::<A, T>::reliable(),
                ),
            },
        },
        Bank::<A, T>::reliable() ==> (r is Ok <==> (payload matches Some(p)
            && old(bank)@.withdraw_refusal(p.account_name@, p.value as nat) is None)),
{
    let payload = match payload {
        Some(payload) => payload,
        None => {
            return Err(ResponseErrorPayload::invalid_format());
        },
    };
    match bank.decr_acc_balance(payload.account_name, payload.value) {
        Ok(id) => Ok(id),
        Err(e) => Err(error_payload(e)),
    }
}

/// Moves what the payload says from the one account to the other and gives
/// the identifier of the transfer.
pub fn handler_make_transaction<A: AccountStorage, T: TransactionStorage>(
    bank: &mut Bank<A, T>,
    payload: Option<RequestMakeTransactionPayload>,
) -> (r: Result<usize, ResponseErrorPayload>)
    requires
        old(bank).inv(),
        payload matches Some(p) ==> old(bank)@.transfer_fits(
            p.account_name@,
            p.account_to_name@,
            p.value as nat,
        ),
    ensures
        final(bank).inv(),
        match payload {
            None => r matches Err(answer) && says_invalid_format(answer) && final(bank)@ == old(
                bank,
            )@,
            Some(p) => match r {
                Ok(id) => {
                    &&& old(bank)@.transfer_refusal(
                        p.account_name@,
                        p.account_to_name@,
                        p.value as nat,
                    ) is None
                    &&& id == old(bank)@.next_id()
                    &&& final(bank)@ == old(bank)@.transferred(
                        p.account_name@,
                        p.account_to_name@,
                        p.value as nat,
                    )
                },
                Err(answer) => tells(
                    answer,
                    old(bank)@.transfer_refusal(
                        p.account_name@,
                        p.account_to_name@,
                        p.value as nat,
                    ),
                    final(bank)@ == old(bank)@,
                    Bank::<A, T>::reliable(),
                ),
            },
        },
        Bank::<A, T>::reliable() ==> (r is Ok <==> (payload matches Some(p)
            && old(bank)@.transfer_refusal(
            p.account_name@,
            p.account_to_name@,
            p.value as nat,
        ) is None)),
{
    let payload = match payload {
        Some(payload) => payload,
        None => {
            return Err(ResponseErrorPayload::invalid_format());
        },
    };
    match bank.make_transaction(payload.account_name, payload.account_to_name, payload.value) {
        Ok(id) => Ok(id),
        Err(e) => Err(error_payload(e)),
    }
}

/// The transactions `list` in their wire form.
pub fn wire_transactions(list: Vec<Transaction>) -> (wire: Vec<TransactionSerializer>)
    ensures
        serializer_views(wire@) == transaction_views(list@),
{
    let mut wire: Vec<TransactionSerializer> = Vec::new();
    let mut i: usize = 0;
    while i < list.len()
        invariant
            i <= list@.len(),
            wire@.len() == i,
            forall|j: int| 0 <= j < i ==> (#[trigger] wire@[j])@ == list@[j]@,
        decreases list@.len() - i,
    {
        wire.push(TransactionSerializer::from(list[i].clone()));
        i += 1;
    }
    assert(serializer_views(wire@) =~= transaction_views(list@));
    wire
}

/// The whole log.
pub fn handler_transactions<A: AccountStorage, T: TransactionStorage>(bank: &Bank<A, T>) -> (r:
    Result<Vec<TransactionSerializer>, ResponseErrorPayload>)
    requires
        bank.inv(),
    ensures
        match r {
            Ok(list) => serializer_views(list@) == bank@.log,
            Err(answer) => tells(answer, None, true, Bank::<A, T>::reliable()),
        },
        Bank::<A, T>::reliable() ==> r is Ok,
{
    match bank.transactions() {
        Ok(list) => Ok(wire_transactions(list)),
        Err(e) => Err(error_payload(e)),
    }
}

/// The transaction that the payload names.
pub fn handler_transaction<A: AccountStorage, T: TransactionStorage>(
    bank: &Bank<A, T>,
    payload: Option<RequestTransactionByIdPayload>,
) -> (r: Result<TransactionSerializer, ResponseErrorPayload>)
    requires
        bank.inv(),
    ensures
        match payload {
            None => r matches Err(answer) && says_invalid_format(answer),
            Some(p) => match r {
                Ok(tr) => bank@.find_refusal(p.id as nat) is None && tr@ == bank@.log[p.id - 1],
                Err(answer) => tells(
                    answer,
                    bank@.find_refusal(p.id as nat),
                    true,
                    Bank::<A, T>::reliable(),
                ),
            },
        },
        Bank::<A, T>::reliable() ==> (r is Ok <==> (payload matches Some(p)
            && bank@.find_refusal(p.id as nat) is None)),
{
    let payload = match payload {
        Some(payload) => payload,
        None => {
            return Err(ResponseErrorPayload::invalid_format());
        },
    };
    match bank.transaction_by_id(payload.id) {
        Ok(tr) => Ok(TransactionSerializer::from(tr)),
        Err(e) => Err(error_payload(e)),
    }
}

/// The transactions listed on the account that the payload names.
pub fn handler_account_trs<A: AccountStorage, T: TransactionStorage>(
    bank: &Bank<A, T>,
    payload: Option<RequestAccountTransactionsPayload>,
) -> (r: Result<Vec<TransactionSerializer>, ResponseErrorPayload>)
    requires
        bank.inv(),
    ensures
        match payload {
            None => r matches Err(answer) && says_invalid_format(answer),
            Some(p) => match r {
                Ok(list) => {
                    &&& bank@.lookup_refusal(p.account_name@) is None
                    &&& serializer_views(list@) == listed(
                        bank@.log,
                        bank@.accounts[p.account_name@].trs,
                    )
                    &&& bank@.agrees_with_log() ==> serializer_views(list@) == touching(
                        bank@.log,
                        p.account_name@,
                    )
                },
                Err(answer) => tells(
                    answer,
                    bank@.lookup_refusal(p.account_name@),
                    true,
                    Bank::<A, T>::reliable(),
                ),
            },
        },
        Bank::<A, T>::reliable() ==> (r is Ok <==> (payload matches Some(p)
            && bank@.lookup_refusal(p.account_name@) is None)),
{
    let payload = match payload {
        Some(payload) => payload,
        None => {
            return Err(ResponseErrorPayload::invalid_format());
        },
    };
    match bank.account_transactions(payload.account_name) {
        Ok(list) => Ok(wire_transactions(list)),
        Err(e) => Err(error_payload(e)),
    }
}

/// The balance of the account that the payload names.
pub fn handler_account_balance<A: AccountStorage, T: TransactionStorage>(
    bank: &Bank<A, T>,
    payload: Option<RequestBalancePayload>,
) -> (r: Result<usize, ResponseErrorPayload>)
    requires
        bank.inv(),
    ensures
        match payload {
            None => r matches Err(answer) && says_invalid_format(answer),
            Some(p) => match r {
                Ok(balance) => bank@.lookup_refusal(p.account_name@) is None && balance
                    == bank@.balance(p.account_name@),
                Err(answer) => tells(
                    answer,
                    bank@.lookup_refusal(p.account_name@),
                    true,
                    Bank::<A, T>::reliable(),
                ),
            },
        },
        Bank::<A, T>::reliable() ==> (r is Ok <==> (payload matches Some(p)
            && bank@.lookup_refusal(p.account_name@) is None)),
{
    let payload = match payload {
        Some(payload) => payload,
        None => {
            return Err(ResponseErrorPayload::invalid_format());
        },
    };
    match bank.account_balance(payload.account_name) {
        Ok(balance) => Ok(balance),
        Err(e) => Err(error_payload(e)),
    }
}

} // verus!
