//! Rejection rules and edge cases: duplicate ids, invalid dispute
//! references, locked accounts, and extreme amounts.

use ledger::processor::process_transaction;
use ledger::types::{Client, State, Transaction, TransactionType};

fn tx(kind: TransactionType, client_id: u16, id: u32, amount: u64) -> Transaction {
    Transaction {
        transaction_type: kind,
        client_id,
        id,
        amount,
        disputed: false,
    }
}

fn run(records: Vec<Transaction>) -> State {
    let mut state = State::new();
    for record in records {
        state = process_transaction(state, record);
    }
    state
}

#[test]
fn duplicate_deposit_id_is_rejected() {
    let state = run(vec![
        tx(TransactionType::Deposit, 1, 1, 10000),
        tx(TransactionType::Deposit, 1, 1, 50000),
    ]);
    let client = state.clients.get(&1).unwrap();
    assert_eq!(client.available, 10000);
    assert_eq!(client.total, 10000);
}

#[test]
fn deposit_id_reusing_withdrawal_id_is_rejected() {
    let state = run(vec![
        tx(TransactionType::Deposit, 1, 1, 10000),
        tx(TransactionType::Withdrawal, 1, 2, 4000),
        tx(TransactionType::Deposit, 1, 2, 50000),
    ]);
    let client = state.clients.get(&1).unwrap();
    assert_eq!(client.available, 6000);
    assert_eq!(client.total, 6000);
}

#[test]
fn duplicate_withdrawal_id_is_rejected() {
    let state = run(vec![
        tx(TransactionType::Deposit, 1, 1, 10000),
        tx(TransactionType::Withdrawal, 1, 2, 1000),
        tx(TransactionType::Withdrawal, 1, 2, 1000),
    ]);
    let client = state.clients.get(&1).unwrap();
    assert_eq!(client.available, 9000);
    assert_eq!(client.total, 9000);
}

#[test]
fn dispute_unknown_tx_is_rejected() {
    let state = run(vec![
        tx(TransactionType::Deposit, 1, 1, 10000),
        tx(TransactionType::Dispute, 1, 99, 0),
    ]);
    let client = state.clients.get(&1).unwrap();
    assert_eq!(client.available, 10000);
    assert_eq!(client.held, 0);
}

#[test]
fn dispute_wrong_client_is_rejected() {
    let state = run(vec![
        tx(TransactionType::Deposit, 1, 1, 10000),
        tx(TransactionType::Dispute, 2, 1, 0),
    ]);
    let client = state.clients.get(&1).unwrap();
    assert_eq!(client.available, 10000);
    assert_eq!(client.held, 0);
}

#[test]
fn dispute_of_withdrawal_is_rejected() {
    let state = run(vec![
        tx(TransactionType::Deposit, 1, 1, 10000),
        tx(TransactionType::Withdrawal, 1, 2, 4000),
        tx(TransactionType::Dispute, 1, 2, 0),
    ]);
    let client = state.clients.get(&1).unwrap();
    assert_eq!(client.available, 6000);
    assert_eq!(client.held, 0);
}

#[test]
fn second_dispute_of_same_tx_is_rejected() {
    let state = run(vec![
        tx(TransactionType::Deposit, 1, 1, 10000),
        tx(TransactionType::Dispute, 1, 1, 0),
        tx(TransactionType::Dispute, 1, 1, 0),
    ]);
    let client = state.clients.get(&1).unwrap();
    assert_eq!(client.available, 0);
    assert_eq!(client.held, 10000);
    assert_eq!(client.total, 10000);
}

#[test]
fn resolve_of_undisputed_tx_is_rejected() {
    let state = run(vec![
        tx(TransactionType::Deposit, 1, 1, 10000),
        tx(TransactionType::Resolve, 1, 1, 0),
    ]);
    let client = state.clients.get(&1).unwrap();
    assert_eq!(client.available, 10000);
    assert_eq!(client.held, 0);
}

#[test]
fn chargeback_of_undisputed_tx_is_rejected() {
    let state = run(vec![
        tx(TransactionType::Deposit, 1, 1, 10000),
        tx(TransactionType::Chargeback, 1, 1, 0),
    ]);
    let client = state.clients.get(&1).unwrap();
    assert_eq!(client.total, 10000);
    assert!(!client.locked);
}

#[test]
fn resolve_wrong_client_is_rejected() {
    let state = run(vec![
        tx(TransactionType::Deposit, 1, 1, 10000),
        tx(TransactionType::Dispute, 1, 1, 0),
        tx(TransactionType::Resolve, 2, 1, 0),
    ]);
    let client = state.clients.get(&1).unwrap();
    assert_eq!(client.available, 0);
    assert_eq!(client.held, 10000);
}

#[test]
fn locked_account_rejects_all_later_transactions() {
    let mut state = run(vec![
        tx(TransactionType::Deposit, 1, 1, 10000),
        tx(TransactionType::Deposit, 1, 2, 5000),
        tx(TransactionType::Dispute, 1, 1, 0),
        tx(TransactionType::Chargeback, 1, 1, 0),
    ]);
    {
        let client = state.clients.get(&1).unwrap();
        assert!(client.locked);
        assert_eq!(client.available, 5000);
        assert_eq!(client.held, 0);
        assert_eq!(client.total, 5000);
    }

    let later = vec![
        tx(TransactionType::Deposit, 1, 3, 7000),
        tx(TransactionType::Withdrawal, 1, 4, 1000),
        tx(TransactionType::Dispute, 1, 2, 0),
        tx(TransactionType::Resolve, 1, 2, 0),
        tx(TransactionType::Chargeback, 1, 2, 0),
    ];
    for record in later {
        state = process_transaction(state, record);
    }

    let client = state.clients.get(&1).unwrap();
    assert!(client.locked);
    assert_eq!(client.available, 5000);
    assert_eq!(client.held, 0);
    assert_eq!(client.total, 5000);
    assert_eq!(state.transfers.len(), 2);
}

#[test]
fn lock_is_per_client() {
    let state = run(vec![
        tx(TransactionType::Deposit, 1, 1, 10000),
        tx(TransactionType::Dispute, 1, 1, 0),
        tx(TransactionType::Chargeback, 1, 1, 0),
        tx(TransactionType::Deposit, 2, 2, 30000),
    ]);
    assert!(state.clients.get(&1).unwrap().locked);
    let other = state.clients.get(&2).unwrap();
    assert!(!other.locked);
    assert_eq!(other.available, 30000);
}

#[test]
fn deposits_of_largest_amounts_are_accepted() {
    let state = run(vec![
        tx(TransactionType::Deposit, 1, 1, u64::MAX),
        tx(TransactionType::Deposit, 1, 2, u64::MAX),
    ]);
    let client = state.clients.get(&1).unwrap();
    assert_eq!(client.available, 2 * (u64::MAX as i128));
    assert_eq!(client.total, 2 * (u64::MAX as i128));
    assert_eq!(client.held, 0);
}

#[test]
fn zero_amount_deposit_creates_account() {
    let state = run(vec![tx(TransactionType::Deposit, 7, 1, 0)]);
    let client = state.clients.get(&7).unwrap();
    assert_eq!(client.available, 0);
    assert_eq!(client.held, 0);
    assert_eq!(client.total, 0);
    assert!(!client.locked);
}

#[test]
fn fresh_client_has_zero_balances() {
    let client = Client::new(9);
    assert_eq!(client.id, 9);
    assert_eq!(client.available, 0);
    assert_eq!(client.held, 0);
    assert_eq!(client.total, 0);
    assert!(!client.locked);
}

#[test]
fn dispute_before_referenced_deposit_is_rejected() {
    let state = run(vec![
        tx(TransactionType::Dispute, 1, 1, 0),
        tx(TransactionType::Deposit, 1, 1, 10000),
    ]);
    let client = state.clients.get(&1).unwrap();
    assert_eq!(client.available, 10000);
    assert_eq!(client.held, 0);
}
