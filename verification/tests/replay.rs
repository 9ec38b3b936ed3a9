use rust_bank::bank::replay::{
    contains_name, fold_transactions, is_replayable, touches_account, transactions_of,
};
use rust_bank::bank::storage::TransactionAction;
use rust_bank::bank::Transaction;

fn tr(id: usize, name: &str, action: TransactionAction) -> Transaction {
    Transaction {
        id,
        action,
        account_name: name.to_string(),
    }
}

fn transfer(to: &str, value: usize, fee: usize) -> TransactionAction {
    TransactionAction::Transfer {
        to: to.to_string(),
        value,
        fee,
    }
}

fn history() -> Vec<Transaction> {
    vec![
        tr(1, "A", TransactionAction::Registration),
        tr(2, "B", TransactionAction::Registration),
        tr(3, "A", TransactionAction::Add(100)),
        tr(4, "A", transfer("B", 10, 1)),
        tr(5, "fee_acc", TransactionAction::Add(1)),
        tr(6, "B", TransactionAction::Withdraw(4)),
    ]
}

#[test]
fn a_transfer_touches_sender_and_receiver() {
    let t = tr(4, "A", transfer("B", 10, 1));
    assert!(touches_account(&t, &"A".to_string()));
    assert!(touches_account(&t, &"B".to_string()));
    assert!(!touches_account(&t, &"fee_acc".to_string()));
    let add = tr(5, "fee_acc", TransactionAction::Add(1));
    assert!(touches_account(&add, &"fee_acc".to_string()));
    assert!(!touches_account(&add, &"A".to_string()));
}

#[test]
fn grouping_keeps_the_order_of_the_log() {
    let all = history();
    let ids = |name: &str| -> Vec<usize> {
        transactions_of(&all, &name.to_string())
            .iter()
            .map(|t| t.id)
            .collect()
    };
    assert_eq!(ids("A"), vec![1, 3, 4]);
    assert_eq!(ids("B"), vec![2, 4, 6]);
    assert_eq!(ids("fee_acc"), vec![5]);
    assert_eq!(ids("nobody"), Vec::<usize>::new());
}

#[test]
fn folding_gives_balance_and_identifiers() {
    let all = history();
    let a = "A".to_string();
    let b = "B".to_string();
    assert_eq!(
        fold_transactions(&transactions_of(&all, &a), &a),
        Some((89, vec![1, 3, 4]))
    );
    assert_eq!(
        fold_transactions(&transactions_of(&all, &b), &b),
        Some((6, vec![2, 4, 6]))
    );
    assert_eq!(fold_transactions(&Vec::new(), &a), Some((0, Vec::new())));
}

#[test]
fn folding_a_transfer_to_oneself_pays_the_fee_only() {
    let a = "A".to_string();
    let trs = vec![
        tr(1, "A", TransactionAction::Add(10)),
        tr(2, "A", transfer("A", 5, 2)),
    ];
    assert_eq!(fold_transactions(&trs, &a), Some((8, vec![1, 2])));
    // the sender has to hold value and fee, though the value comes back
    let short = vec![
        tr(1, "A", TransactionAction::Add(6)),
        tr(2, "A", transfer("A", 5, 2)),
    ];
    assert_eq!(fold_transactions(&short, &a), None);
}

#[test]
fn folding_stops_where_the_account_cannot_pay() {
    let a = "A".to_string();
    let overdrawn = vec![
        tr(1, "A", TransactionAction::Add(3)),
        tr(2, "A", TransactionAction::Withdraw(4)),
    ];
    assert_eq!(fold_transactions(&overdrawn, &a), None);
    let fee_too_much = vec![
        tr(1, "A", TransactionAction::Add(10)),
        tr(2, "A", transfer("B", 10, 1)),
    ];
    assert_eq!(fold_transactions(&fee_too_much, &a), None);
    let too_large = vec![
        tr(1, "A", TransactionAction::Add(usize::MAX)),
        tr(2, "A", TransactionAction::Add(1)),
    ];
    assert_eq!(fold_transactions(&too_large, &a), None);
    let received_too_much = vec![
        tr(1, "A", TransactionAction::Add(usize::MAX)),
        tr(2, "B", transfer("A", 1, 0)),
    ];
    assert_eq!(fold_transactions(&received_too_much, &a), None);
    let at_the_limit = vec![
        tr(1, "A", TransactionAction::Add(usize::MAX - 1)),
        tr(2, "A", TransactionAction::Add(1)),
        tr(3, "A", TransactionAction::Withdraw(usize::MAX)),
    ];
    assert_eq!(
        fold_transactions(&at_the_limit, &a),
        Some((0, vec![1, 2, 3]))
    );
}

#[test]
fn a_log_is_replayable_when_every_account_can_pay() {
    assert!(is_replayable(&history()));
    assert!(is_replayable(&Vec::new()));
    let mut bad = history();
    bad.push(tr(7, "B", TransactionAction::Withdraw(7)));
    assert!(!is_replayable(&bad));
    // the receiver of a transfer counts too
    let receiver_overflows = vec![
        tr(1, "A", TransactionAction::Add(usize::MAX)),
        tr(2, "B", TransactionAction::Add(1)),
        tr(3, "B", transfer("A", 1, 0)),
    ];
    assert!(!is_replayable(&receiver_overflows));
}

#[test]
fn names_are_found_in_a_list() {
    let list = vec!["A".to_string(), "B".to_string()];
    assert!(contains_name(&list, &"B".to_string()));
    assert!(!contains_name(&list, &"C".to_string()));
    assert!(!contains_name(&Vec::new(), &"A".to_string()));
}
