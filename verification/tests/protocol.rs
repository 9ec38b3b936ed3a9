use rust_bank::bank::implements::memory::storage::{MemAccountStorage, MemTransactionStorage};
use rust_bank::bank::storage::{Error as StorageError, TransactionAction};
use rust_bank::bank::{Account, Bank, Error as BankError, Transaction};
use rust_bank::handler::{
    error_payload, handle_create_account, handle_decr_balance, handle_incr_balance,
    handler_account_balance, handler_account_trs, handler_make_transaction, handler_transaction,
    handler_transactions,
};
use rust_bank::protocol::types::{
    AccountSerializer, InvalidId, Method, Request, RequestAccountTransactionsPayload,
    RequestBalancePayload, RequestCreateAccountPayload, RequestDecrBalancePayload,
    RequestIncrBalancePayload, RequestMakeTransactionPayload, RequestSerializer,
    RequestTransactionByIdPayload, RespCode, Response, ResponseAccountPayload,
    ResponseErrorPayload, ResponseSerializer, TransactionActionSerializer, TransactionSerializer,
};

fn new_bank(fee: usize) -> Bank<MemAccountStorage, MemTransactionStorage> {
    Bank::new(
        MemAccountStorage::new().unwrap(),
        MemTransactionStorage::new(),
        Some(fee),
    )
}

#[test]
fn errors_say_what_went_wrong() {
    assert_eq!(
        BankError::Storage("disk".to_string()).message(),
        "storage error: `disk`"
    );
    assert_eq!(
        BankError::AccountAlreadyExists.message(),
        "account already exists"
    );
    assert_eq!(BankError::AccountNotExists.message(), "account not exists");
    assert_eq!(BankError::EmptyTransaction.message(), "empty transaction");
    assert_eq!(BankError::NotEnoughMoney.message(), "not enough money");
    assert_eq!(
        BankError::TransactionNotExists.message(),
        "transaction not exists"
    );
    assert_eq!(
        StorageError::StorageError("net".to_string()).message(),
        "storage error: `net`"
    );
    assert_eq!(
        StorageError::AccountAlreadyExists.message(),
        "account already exists"
    );
    assert_eq!(StorageError::AccountNotExists.message(), "account not exists");
    assert_eq!(
        StorageError::TransactionNotExists.message(),
        "transaction not exists"
    );
}

#[test]
fn storage_errors_become_ledger_errors() {
    assert_eq!(
        BankError::from(StorageError::StorageError("x".to_string())),
        BankError::Storage("x".to_string())
    );
    assert_eq!(
        BankError::from(StorageError::AccountAlreadyExists),
        BankError::AccountAlreadyExists
    );
    assert_eq!(
        BankError::from(StorageError::AccountNotExists),
        BankError::AccountNotExists
    );
    assert_eq!(
        BankError::from(StorageError::TransactionNotExists),
        BankError::TransactionNotExists
    );
}

#[test]
fn a_correlation_id_goes_over_the_wire_as_text() {
    let id = 0xa1a2a3a4b1b2c1c2d1d2d3d4d5d6d7d8u128;
    let req = Request {
        id,
        method: Method::AccountBalance,
        payload: RequestBalancePayload {
            account_name: "A".to_string(),
        },
    };
    let wire = RequestSerializer::from(req);
    assert_eq!(wire.id, "a1a2a3a4-b1b2-c1c2-d1d2-d3d4d5d6d7d8");
    assert_eq!(wire.method, Method::AccountBalance);
    let back = Request::try_from(wire).unwrap();
    assert_eq!(back.id, id);
    assert_eq!(back.method, Method::AccountBalance);
    assert_eq!(back.payload.account_name, "A");
}

#[test]
fn a_response_keeps_the_correlation_id() {
    let id = 0x550e8400e29b41d4a716446655440000u128;
    let ok = Response::ok(id, Some(7usize));
    assert_eq!(ok.id, id);
    assert_eq!(ok.code, RespCode::OK);
    assert_eq!(ok.payload, Some(7));
    let err = Response::err(id, Some(7usize));
    assert_eq!(err.id, id);
    assert_eq!(err.code, RespCode::ERR);
    let failed = Response::new(id, "boom".to_string());
    assert_eq!(failed.id, id);
    assert_eq!(failed.code, RespCode::ERR);
    assert_eq!(failed.payload.unwrap().error, "boom");
    let carried = ResponseErrorPayload::invalid_format().to_response(id);
    assert_eq!(carried.id, id);
    assert_eq!(carried.code, RespCode::ERR);
    assert_eq!(carried.payload.unwrap().error, "InvalidFormat");

    let wire = ResponseSerializer::from(Response::ok(id, Some(7usize)));
    assert_eq!(wire.id, "550e8400-e29b-41d4-a716-446655440000");
    let back = Response::try_from(wire).unwrap();
    assert_eq!(back.id, id);
    assert_eq!(back.payload, Some(7));
}

#[test]
fn text_that_is_no_uuid_is_refused() {
    let wire = RequestSerializer {
        id: "not-a-uuid".to_string(),
        method: Method::Transactions,
        payload: (),
    };
    assert_eq!(Request::try_from(wire).err().unwrap(), InvalidId);
    let wire = ResponseSerializer {
        id: "".to_string(),
        code: RespCode::OK,
        payload: Some(()),
    };
    assert_eq!(Response::try_from(wire).err().unwrap(), InvalidId);
    // the form without hyphens is read too
    let wire = RequestSerializer {
        id: "550e8400e29b41d4a716446655440000".to_string(),
        method: Method::Transactions,
        payload: (),
    };
    assert_eq!(
        Request::try_from(wire).unwrap().id,
        0x550e8400e29b41d4a716446655440000u128
    );
}

#[test]
fn new_requests_get_different_ids() {
    let a = Request::new(Method::Transactions, ());
    let b = Request::new(Method::Transactions, ());
    assert_eq!(a.method, Method::Transactions);
    assert_ne!(a.id, b.id);
}

#[test]
fn methods_that_write_are_told_from_those_that_read() {
    assert!(Method::CreteAccount.is_mutating());
    assert!(Method::IncrBalance.is_mutating());
    assert!(Method::DecrBalance.is_mutating());
    assert!(Method::MakeTransaction.is_mutating());
    assert!(!Method::Transaction.is_mutating());
    assert!(!Method::Transactions.is_mutating());
    assert!(!Method::AccountTransactions.is_mutating());
    assert!(!Method::AccountBalance.is_mutating());
    assert_eq!(Method::IncrBalance.clone(), Method::IncrBalance);
}

#[test]
fn records_keep_their_fields_in_the_wire_form() {
    let tr = Transaction {
        id: 4,
        action: TransactionAction::Transfer {
            to: "B".to_string(),
            value: 10,
            fee: 1,
        },
        account_name: "A".to_string(),
    };
    let wire = TransactionSerializer::from(tr.clone());
    assert_eq!(
        wire,
        TransactionSerializer {
            id: 4,
            action: TransactionActionSerializer::Transfer {
                to: "B".to_string(),
                value: 10,
                fee: 1
            },
            account_name: "A".to_string(),
        }
    );
    assert_eq!(Transaction::from(wire), tr);
    assert_eq!(
        TransactionActionSerializer::from(TransactionAction::Add(3)),
        TransactionActionSerializer::Add(3)
    );
    assert_eq!(
        TransactionAction::from(TransactionActionSerializer::Withdraw(2)),
        TransactionAction::Withdraw(2)
    );
    assert_eq!(
        TransactionAction::from(TransactionActionSerializer::Registration),
        TransactionAction::Registration
    );

    let acc = Account {
        balance: 5,
        name: "A".to_string(),
        trs: vec![1, 2],
    };
    assert_eq!(acc.balance(), 5);
    let payload = ResponseAccountPayload::from(acc);
    assert_eq!(
        payload,
        ResponseAccountPayload {
            balance: 5,
            name: "A".to_string(),
            trs: vec![1, 2]
        }
    );
    let wire = AccountSerializer::from(payload);
    assert_eq!(
        wire,
        AccountSerializer {
            balance: 5,
            name: "A".to_string(),
            trs: vec![1, 2]
        }
    );
    assert_eq!(ResponseAccountPayload::from(wire).trs, vec![1, 2]);
    assert_eq!(AccountSerializer::default().name, "");
}

#[test]
fn requests_are_carried_out_on_the_ledger() {
    let mut bank = new_bank(1);
    let acc = handle_create_account(
        &mut bank,
        Some(RequestCreateAccountPayload {
            account_name: "A".to_string(),
        }),
    )
    .unwrap();
    assert_eq!(
        acc,
        ResponseAccountPayload {
            balance: 0,
            name: "A".to_string(),
            trs: vec![1]
        }
    );
    handle_create_account(
        &mut bank,
        Some(RequestCreateAccountPayload {
            account_name: "B".to_string(),
        }),
    )
    .unwrap();
    assert_eq!(
        handle_incr_balance(
            &mut bank,
            Some(RequestIncrBalancePayload {
                account_name: "A".to_string(),
                value: 100
            })
        ),
        Ok(3)
    );
    assert_eq!(
        handler_make_transaction(
            &mut bank,
            Some(RequestMakeTransactionPayload {
                account_name: "A".to_string(),
                account_to_name: "B".to_string(),
                value: 10
            })
        ),
        Ok(4)
    );
    assert_eq!(
        handle_decr_balance(
            &mut bank,
            Some(RequestDecrBalancePayload {
                account_name: "B".to_string(),
                value: 4
            })
        ),
        Ok(6)
    );
    assert_eq!(
        handler_account_balance(
            &bank,
            Some(RequestBalancePayload {
                account_name: "A".to_string()
            })
        ),
        Ok(89)
    );
    let of_b: Vec<usize> = handler_account_trs(
        &bank,
        Some(RequestAccountTransactionsPayload {
            account_name: "B".to_string(),
        }),
    )
    .unwrap()
    .iter()
    .map(|tr| tr.id)
    .collect();
    assert_eq!(of_b, vec![2, 4, 6]);
    assert_eq!(handler_transactions(&bank).unwrap().len(), 6);
    assert_eq!(
        handler_transaction(&bank, Some(RequestTransactionByIdPayload { id: 5 })).unwrap(),
        TransactionSerializer {
            id: 5,
            action: TransactionActionSerializer::Add(1),
            account_name: "fee_acc".to_string(),
        }
    );
}

#[test]
fn failed_requests_say_why() {
    let mut bank = new_bank(1);
    let said = |r: ResponseErrorPayload| r.error;
    assert_eq!(
        said(handle_create_account(&mut bank, None).err().unwrap()),
        "InvalidFormat"
    );
    assert_eq!(
        said(handle_incr_balance(&mut bank, None).err().unwrap()),
        "InvalidFormat"
    );
    assert_eq!(
        said(handle_decr_balance(&mut bank, None).err().unwrap()),
        "InvalidFormat"
    );
    assert_eq!(
        said(handler_make_transaction(&mut bank, None).err().unwrap()),
        "InvalidFormat"
    );
    assert_eq!(
        said(handler_transaction(&bank, None).err().unwrap()),
        "InvalidFormat"
    );
    assert_eq!(
        said(handler_account_trs(&bank, None).err().unwrap()),
        "InvalidFormat"
    );
    assert_eq!(
        said(handler_account_balance(&bank, None).err().unwrap()),
        "InvalidFormat"
    );
    assert_eq!(bank.transactions().unwrap().len(), 0);

    handle_create_account(
        &mut bank,
        Some(RequestCreateAccountPayload {
            account_name: "A".to_string(),
        }),
    )
    .unwrap();
    assert_eq!(
        said(
            handle_create_account(
                &mut bank,
                Some(RequestCreateAccountPayload {
                    account_name: "A".to_string()
                })
            )
            .err()
            .unwrap()
        ),
        "account already exists"
    );
    assert_eq!(
        said(
            handle_incr_balance(
                &mut bank,
                Some(RequestIncrBalancePayload {
                    account_name: "A".to_string(),
                    value: 0
                })
            )
            .err()
            .unwrap()
        ),
        "empty transaction"
    );
    assert_eq!(
        said(
            handle_decr_balance(
                &mut bank,
                Some(RequestDecrBalancePayload {
                    account_name: "A".to_string(),
                    value: 1
                })
            )
            .err()
            .unwrap()
        ),
        "not enough money"
    );
    assert_eq!(
        said(
            handler_make_transaction(
                &mut bank,
                Some(RequestMakeTransactionPayload {
                    account_name: "nobody".to_string(),
                    account_to_name: "A".to_string(),
                    value: 1
                })
            )
            .err()
            .unwrap()
        ),
        "account not exists"
    );
    assert_eq!(
        said(
            handler_transaction(&bank, Some(RequestTransactionByIdPayload { id: 9 }))
                .err()
                .unwrap()
        ),
        "transaction not exists"
    );
    assert_eq!(
        said(
            handler_account_balance(
                &bank,
                Some(RequestBalancePayload {
                    account_name: "nobody".to_string()
                })
            )
            .err()
            .unwrap()
        ),
        "account not exists"
    );
    assert_eq!(
        said(error_payload(BankError::Storage("full".to_string()))),
        "storage error: `full`"
    );
}

#[test]
fn every_id_is_read_back_from_its_text() {
    let ids = [
        0u128,
        1,
        u128::MAX,
        0x0123456789abcdef0123456789abcdefu128,
        Request::new(Method::Transactions, ()).id,
    ];
    for id in ids {
        let wire = RequestSerializer::from(Request {
            id,
            method: Method::Transaction,
            payload: RequestTransactionByIdPayload { id: 7 },
        });
        assert_eq!(wire.id.len(), 36);
        let back = Request::try_from(wire).unwrap();
        assert_eq!(back.id, id);
        assert_eq!(back.payload.id, 7);
    }
}
