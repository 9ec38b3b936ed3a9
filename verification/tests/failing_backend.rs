use rust_bank::bank::implements::memory::storage::MemAccountStorage;
use rust_bank::bank::storage::{
    Error as StorageError, TransactionAction, TransactionStorage, TransactionTransfer,
};
use rust_bank::bank::{Bank, Error as BankError};
use rust_bank::handler::handle_incr_balance;
use rust_bank::protocol::types::RequestIncrBalancePayload;

/// A log that takes `room` transactions and then fails.
#[derive(Default)]
struct ShortLog {
    kept: Vec<TransactionTransfer>,
    room: usize,
}

impl TransactionStorage for ShortLog {
    // what only proofs speak of is never run
    fn inv(&self) -> bool {
        unreachable!()
    }

    fn log(&self) -> vstd::seq::Seq<rust_bank::bank::model::TransactionView> {
        unreachable!()
    }

    fn reliable() -> bool {
        unreachable!()
    }

    fn lemma_log_numbered(&self) {
        unreachable!()
    }

    fn lemma_default_is_empty(_: Self) {
        unreachable!()
    }

    fn create_transaction(
        &mut self,
        account_name: String,
        action: TransactionAction,
    ) -> Result<TransactionTransfer, StorageError> {
        if self.kept.len() >= self.room {
            return Err(StorageError::StorageError("disk full".to_string()));
        }
        let tr = TransactionTransfer {
            id: self.kept.len() + 1,
            action,
            account_name,
        };
        self.kept.push(tr.clone());
        Ok(tr)
    }

    fn transactions(&self) -> Result<Vec<TransactionTransfer>, StorageError> {
        Ok(self.kept.clone())
    }

    fn transaction_by_id(&self, id: usize) -> Result<TransactionTransfer, StorageError> {
        if 1 <= id && id <= self.kept.len() {
            Ok(self.kept[id - 1].clone())
        } else {
            Err(StorageError::TransactionNotExists)
        }
    }
}

#[test]
fn a_storage_failure_is_reported_with_its_message() {
    let log = ShortLog {
        kept: Vec::new(),
        room: 1,
    };
    let mut bank = Bank::new(MemAccountStorage::new().unwrap(), log, Some(1));
    bank.create_account("A".to_string()).unwrap();

    assert_eq!(
        bank.inc_acc_balance("A".to_string(), 5).err().unwrap(),
        BankError::Storage("disk full".to_string())
    );
    // the payment was not made
    assert_eq!(bank.account_balance("A".to_string()).unwrap(), 0);
    assert_eq!(bank.transactions().unwrap().len(), 1);

    let answer = handle_incr_balance(
        &mut bank,
        Some(RequestIncrBalancePayload {
            account_name: "A".to_string(),
            value: 5,
        }),
    )
    .err()
    .unwrap();
    assert_eq!(answer.error, "storage error: `disk full`");

    // an account is filed before its registration is logged
    assert_eq!(
        bank.create_account("B".to_string()).err().unwrap(),
        BankError::Storage("disk full".to_string())
    );
    assert_eq!(bank.transactions().unwrap().len(), 1);
    assert_eq!(bank.account("B".to_string()).unwrap().trs, Vec::<usize>::new());
}
