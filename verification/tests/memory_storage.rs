use rust_bank::bank::implements::memory::storage::{MemAccountStorage, MemTransactionStorage};
use rust_bank::bank::storage::{
    AccountStorage, AccountTransfer, Error as StorageError, TransactionAction, TransactionStorage,
};

#[test]
fn test_storage_get_account() {
    let mut storage = MemAccountStorage::new().unwrap();
    let test_name = "test".to_string();

    // test empty get
    assert_eq!(storage.get_account(test_name.clone()).is_err(), true);

    // test success insert
    let raw = AccountTransfer {
        name: test_name.clone(),
        balance: 0,
        trs: Default::default(),
    };
    assert_eq!(storage.create_account(raw).is_ok(), true);

    let result = storage.get_account(test_name.clone());
    assert_eq!(
        result.unwrap(),
        AccountTransfer {
            name: test_name.clone(),
            balance: 0,
            trs: Vec::new(),
        }
    );
}

#[test]
fn test_storage_create_account() {
    let mut storage = MemAccountStorage::new().unwrap();
    let test_name = "test".to_string();

    // test add new acc (not existed early)
    let mut raw = AccountTransfer {
        name: test_name.clone(),
        balance: 0,
        trs: Default::default(),
    };
    assert_eq!(storage.create_account(raw).is_ok(), true);

    // test create acc with same name
    raw = AccountTransfer {
        name: test_name.clone(),
        balance: 0,
        trs: Default::default(),
    };
    let result = storage.create_account(raw);
    assert_eq!(result.is_err(), true);
    assert_eq!(result.err().unwrap(), StorageError::AccountAlreadyExists);
}

#[test]
fn test_storage_update_account() {
    let mut storage = MemAccountStorage::new().unwrap();
    let test_name = "test".to_string();

    // updates non existed account
    let raw = AccountTransfer {
        name: "not_exist".to_string(),
        balance: 0,
        trs: Default::default(),
    };
    let result = storage.update_account(raw);
    assert_eq!(result.is_err(), true);
    assert_eq!(result.err().unwrap(), StorageError::AccountNotExists);

    // test add new acc (not existed early)
    let raw = AccountTransfer {
        name: test_name.clone(),
        balance: 0,
        trs: Default::default(),
    };
    let acc = storage.create_account(raw).unwrap();

    let to_update = AccountTransfer {
        name: acc.name.clone(),
        balance: 123,
        trs: Default::default(),
    };
    let res = storage.update_account(to_update);
    assert_eq!(res.is_ok(), true);
    assert_eq!(res.unwrap().balance, 123);
    assert_eq!(storage.get_account(test_name).unwrap().balance, 123);
}

#[test]
fn test_storage_create_transaction() {
    let mut storage = MemTransactionStorage::new();

    let account_name = "test".to_string();

    let mut res = storage
        .create_transaction(account_name.clone(), TransactionAction::Registration)
        .unwrap();
    assert_eq!(res.id, 1);
    assert_eq!(res.action, TransactionAction::Registration);
    assert_eq!(storage.transaction_by_id(res.id).unwrap().id, 1);

    res = storage
        .create_transaction(account_name.clone(), TransactionAction::Registration)
        .unwrap();
    assert_eq!(res.id, 2);
    assert_eq!(res.action, TransactionAction::Registration);
    assert_eq!(storage.transaction_by_id(res.id).unwrap().id, 2)
}

#[test]
fn test_storage_transactions() {
    let mut storage = MemTransactionStorage::new();
    storage
        .create_transaction("test_1".to_string(), TransactionAction::Registration)
        .unwrap();
    storage
        .create_transaction("test_1".to_string(), TransactionAction::Registration)
        .unwrap();
    storage
        .create_transaction("test_2".to_string(), TransactionAction::Add(13))
        .unwrap();
    storage
        .create_transaction("test_3".to_string(), TransactionAction::Withdraw(13))
        .unwrap();

    let transactions = storage.transactions().unwrap();
    assert_eq!(transactions.len(), 4);
    assert_eq!(
        transactions
            .iter()
            .filter(|x| x.account_name == "test_1")
            .count(),
        2
    );
    assert_eq!(
        transactions
            .iter()
            .filter(|x| x.account_name == "test_2")
            .count(),
        1
    );
    assert_eq!(
        transactions
            .iter()
            .filter(|x| x.account_name == "test_3")
            .count(),
        1
    );
}

#[test]
fn test_storage_account_transactions() {
    let mut storage = MemTransactionStorage::new();
    storage
        .create_transaction("test_1".to_string(), TransactionAction::Registration)
        .unwrap();
    storage
        .create_transaction("test_2".to_string(), TransactionAction::Registration)
        .unwrap();
    storage
        .create_transaction("test_1".to_string(), TransactionAction::Add(13))
        .unwrap();
    storage
        .create_transaction("test_3".to_string(), TransactionAction::Withdraw(13))
        .unwrap();
    storage
        .create_transaction("test_3".to_string(), TransactionAction::Withdraw(11))
        .unwrap();

    assert_eq!(
        storage
            .transactions()
            .unwrap()
            .iter()
            .filter(|x| x.account_name == "test_1")
            .count(),
        2
    );
    assert_eq!(
        storage
            .transactions()
            .unwrap()
            .iter()
            .filter(|x| x.account_name == "test_2")
            .count(),
        1
    );
    assert_eq!(
        storage
            .transactions()
            .unwrap()
            .iter()
            .filter(|x| x.account_name == "test_3")
            .count(),
        2
    );
}

#[test]
fn test_storage_get_transaction_by_id() {
    let mut storage = MemTransactionStorage::new();
    storage
        .create_transaction("account_name".to_string(), TransactionAction::Registration)
        .unwrap();
    storage
        .create_transaction("account_name".to_string(), TransactionAction::Registration)
        .unwrap();
    storage
        .create_transaction("account_name".to_string(), TransactionAction::Add(15))
        .unwrap();

    assert_eq!(storage.transaction_by_id(1).unwrap().id, 1);
    assert_eq!(
        storage.transaction_by_id(1).unwrap().action,
        TransactionAction::Registration
    );

    assert_eq!(storage.transaction_by_id(2).unwrap().id, 2);
    assert_eq!(
        storage.transaction_by_id(2).unwrap().action,
        TransactionAction::Registration
    );

    assert_eq!(storage.transaction_by_id(3).unwrap().id, 3);
    assert_eq!(
        storage.transaction_by_id(3).unwrap().action,
        TransactionAction::Add(15)
    );

    assert_eq!(storage.transaction_by_id(4).is_err(), true);
}

#[test]
fn transaction_by_id_of_missing_ids_is_transaction_not_exists() {
    let mut storage = MemTransactionStorage::new();
    assert_eq!(
        storage.transaction_by_id(0).err().unwrap(),
        StorageError::TransactionNotExists
    );
    assert_eq!(
        storage.transaction_by_id(1).err().unwrap(),
        StorageError::TransactionNotExists
    );
    storage
        .create_transaction("a".to_string(), TransactionAction::Registration)
        .unwrap();
    assert_eq!(storage.transaction_by_id(1).unwrap().account_name, "a");
    assert_eq!(
        storage.transaction_by_id(2).err().unwrap(),
        StorageError::TransactionNotExists
    );
}

#[test]
fn new_table_holds_only_the_fee_account() {
    let storage = MemAccountStorage::new().unwrap();
    let all = storage.accounts().unwrap();
    assert_eq!(all.len(), 1);
    assert_eq!(
        all[0],
        AccountTransfer {
            name: "fee_acc".to_string(),
            balance: 0,
            trs: Vec::new(),
        }
    );
    assert_eq!(storage.fee_account().unwrap(), all[0]);
    let by_default = MemAccountStorage::default();
    assert_eq!(by_default.accounts().unwrap(), all);
}

#[test]
fn update_account_replaces_the_whole_record_and_no_other() {
    let mut storage = MemAccountStorage::new().unwrap();
    storage
        .create_account(AccountTransfer::new("a".to_string(), Some(5)))
        .unwrap();
    storage
        .create_account(AccountTransfer::new("b".to_string(), None))
        .unwrap();
    let stored = storage
        .update_account(AccountTransfer {
            name: "a".to_string(),
            balance: 7,
            trs: vec![3, 4],
        })
        .unwrap();
    assert_eq!(stored.trs, vec![3, 4]);
    assert_eq!(
        storage.get_account("a".to_string()).unwrap(),
        AccountTransfer {
            name: "a".to_string(),
            balance: 7,
            trs: vec![3, 4],
        }
    );
    assert_eq!(storage.get_account("b".to_string()).unwrap().balance, 0);
    assert_eq!(storage.fee_account().unwrap().name, "fee_acc");
    let names: Vec<String> = storage
        .accounts()
        .unwrap()
        .into_iter()
        .map(|acc| acc.name)
        .collect();
    assert_eq!(names, vec!["fee_acc", "a", "b"]);
}

#[test]
fn log_keeps_the_order_of_creation() {
    let mut storage = MemTransactionStorage::default();
    assert_eq!(storage.transactions().unwrap().len(), 0);
    storage
        .create_transaction("x".to_string(), TransactionAction::Add(1))
        .unwrap();
    let second = storage
        .create_transaction(
            "y".to_string(),
            TransactionAction::Transfer {
                to: "x".to_string(),
                value: 2,
                fee: 0,
            },
        )
        .unwrap();
    assert_eq!(second.id, 2);
    assert_eq!(second.account_name, "y");
    let all = storage.transactions().unwrap();
    let ids: Vec<usize> = all.iter().map(|tr| tr.id).collect();
    assert_eq!(ids, vec![1, 2]);
    assert_eq!(all[1], second);
}
