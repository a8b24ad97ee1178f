use ledger_node::transactions::Transaction;
use ledger_node::wallet::Ledger;

fn tx(from: &str, to: &str, amount: i32) -> Transaction {
    Transaction::new(from.to_string(), to.to_string(), amount)
}

fn two_wallets(a: i32, b: i32) -> Ledger {
    let mut l = Ledger::new();
    l.insert_wallet("w1".to_string(), a);
    l.insert_wallet("w2".to_string(), b);
    l
}

fn bal(l: &Ledger, id: &str) -> Option<i32> {
    l.balance(&id.to_string())
}

#[test]
fn apply_moves_amount() {
    let mut l = two_wallets(100, 0);
    assert!(l.apply(&tx("w1", "w2", 40)));
    assert_eq!(bal(&l, "w1"), Some(60));
    assert_eq!(bal(&l, "w2"), Some(40));
}

#[test]
fn apply_conserves_total() {
    let mut l = two_wallets(100, 7);
    l.insert_wallet("w3".to_string(), -5);
    assert!(l.apply(&tx("w2", "w3", 7)));
    let sum = bal(&l, "w1").unwrap() + bal(&l, "w2").unwrap() + bal(&l, "w3").unwrap();
    assert_eq!(sum, 102);
    assert_eq!(bal(&l, "w2"), Some(0));
    assert_eq!(bal(&l, "w3"), Some(2));
}

#[test]
fn apply_insufficient_balance_changes_nothing() {
    let mut l = two_wallets(60, 40);
    assert!(!l.apply(&tx("w1", "w2", 1000)));
    assert_eq!(bal(&l, "w1"), Some(60));
    assert_eq!(bal(&l, "w2"), Some(40));
}

#[test]
fn apply_whole_balance() {
    let mut l = two_wallets(60, 40);
    assert!(l.apply(&tx("w1", "w2", 60)));
    assert_eq!(bal(&l, "w1"), Some(0));
    assert_eq!(bal(&l, "w2"), Some(100));
}

#[test]
fn apply_unknown_sender_fails() {
    let mut l = two_wallets(60, 40);
    assert!(!l.apply(&tx("nobody", "w2", 1)));
    assert_eq!(bal(&l, "w2"), Some(40));
}

#[test]
fn apply_unknown_receiver_debits_nothing() {
    let mut l = two_wallets(60, 40);
    assert!(!l.apply(&tx("w1", "nobody", 10)));
    assert_eq!(bal(&l, "w1"), Some(60));
    assert_eq!(bal(&l, "nobody"), None);
}

#[test]
fn apply_to_self_keeps_balance() {
    let mut l = two_wallets(60, 40);
    assert!(l.apply(&tx("w1", "w1", 25)));
    assert_eq!(bal(&l, "w1"), Some(60));
}

#[test]
fn apply_negative_amount_moves_back() {
    let mut l = two_wallets(60, 40);
    assert!(l.apply(&tx("w1", "w2", -10)));
    assert_eq!(bal(&l, "w1"), Some(70));
    assert_eq!(bal(&l, "w2"), Some(30));
}

#[test]
fn apply_overflowing_credit_fails() {
    let mut l = two_wallets(10, i32::MAX);
    assert!(!l.apply(&tx("w1", "w2", 5)));
    assert_eq!(bal(&l, "w1"), Some(10));
    assert_eq!(bal(&l, "w2"), Some(i32::MAX));
}

#[test]
fn create_gives_fresh_ids() {
    let mut l = Ledger::new();
    let a = l.create(100).unwrap();
    let b = l.create(-3).unwrap();
    assert_ne!(a, b);
    assert_eq!(a.len(), 36);
    assert_eq!(l.balance(&a), Some(100));
    assert_eq!(l.balance(&b), Some(-3));
}

#[test]
fn insert_wallet_overwrites() {
    let mut l = two_wallets(60, 40);
    l.insert_wallet("w1".to_string(), 5);
    assert_eq!(bal(&l, "w1"), Some(5));
    assert_eq!(bal(&l, "w2"), Some(40));
}

#[test]
fn insert_new_refuses_taken_id() {
    let mut l = two_wallets(60, 40);
    assert!(!l.insert_new("w1".to_string(), 5));
    assert_eq!(bal(&l, "w1"), Some(60));
    assert!(l.insert_new("w3".to_string(), 5));
    assert_eq!(bal(&l, "w3"), Some(5));
}
