use rust_banking::audit::{log_action, log_action_at};
use rust_banking::banking::{approve_transfer_at, transfer_money_at};
use rust_banking::models::{Account, AuditRecord, Transfer, User, UserRecord};
use rust_banking::store::{Bank, StoreError};

fn account(id: i32, owner: i32, balance: i64) -> Account {
    Account { account_id: id, user_id: owner, account_type: "checking".into(), balance, status: "active".into() }
}

fn transfer(id: i32, from: i32, to: i32, amount: i64, status: &str) -> Transfer {
    Transfer {
        transfer_id: id,
        from_account: from,
        to_account: to,
        amount,
        status: status.into(),
        requested_by: 1,
        approved_by: None,
        created_at: "2024-01-01 00:00:00".into(),
    }
}

fn audit(id: i32) -> AuditRecord {
    AuditRecord {
        log_id: id,
        user_id: None,
        action: "A".into(),
        details: "d".into(),
        created_at: "t".into(),
        prev_hash: "GENESIS".into(),
        current_hash: "x".into(),
    }
}

fn manager() -> User {
    User { user_id: 3, username: "boss".into(), full_name: "Boss".into(), role: "manager".into() }
}

fn users() -> Vec<UserRecord> {
    vec![UserRecord {
        user_id: 3,
        username: "boss".into(),
        password: "pw".into(),
        full_name: "Boss".into(),
        role: "manager".into(),
    }]
}

#[test]
fn consistent_tables_make_a_bank() {
    let b = Bank::from_tables(
        users(),
        vec![account(1, 3, 500), account(4, 3, -20)],
        vec![transfer(2, 1, 4, 100, "pending")],
        vec![],
        vec![audit(1), audit(9)],
    );
    assert!(b.is_some());
}

#[test]
fn inconsistent_tables_are_refused() {
    // keys out of order
    assert!(Bank::from_tables(users(), vec![account(2, 3, 1), account(1, 3, 1)], vec![], vec![], vec![]).is_none());
    // a key twice
    assert!(Bank::from_tables(users(), vec![], vec![], vec![], vec![audit(1), audit(1)]).is_none());
    // a transfer naming a missing account
    assert!(Bank::from_tables(users(), vec![account(1, 3, 1)], vec![transfer(1, 1, 2, 5, "pending")], vec![], vec![]).is_none());
    // a transfer of nothing
    assert!(Bank::from_tables(users(), vec![account(1, 3, 1), account(2, 3, 1)], vec![transfer(1, 1, 2, 0, "pending")], vec![], vec![]).is_none());
    // more money than an i64 holds
    assert!(Bank::from_tables(users(), vec![account(1, 3, i64::MAX), account(2, 3, 1)], vec![], vec![], vec![]).is_none());
    // overdrawn accounts do not count towards the funds
    assert!(Bank::from_tables(users(), vec![account(1, 3, i64::MAX), account(2, 3, -1)], vec![], vec![], vec![]).is_some());
}

#[test]
fn full_audit_log_refuses_writes() {
    let mut bank = Bank::from_tables(users(), vec![account(1, 3, 500), account(2, 3, 0)], vec![], vec![], vec![audit(i32::MAX)]).unwrap();
    assert_eq!(log_action_at(&mut bank, None, "A", "d", "t"), Err(StoreError::KeysExhausted));
    assert_eq!(log_action(&mut bank, None, "A", "d"), Err(StoreError::KeysExhausted));
    assert_eq!(bank.audit_log.len(), 1);
    let m = manager();
    assert_eq!(transfer_money_at(&mut bank, &m, 1, 2, 100, "t"), Err(StoreError::KeysExhausted));
    assert_eq!(bank.accounts[0].balance, 500);
    assert_eq!(bank.transfers.len(), 0);
    // answers that write nothing still come
    assert_eq!(transfer_money_at(&mut bank, &m, 1, 2, 0, "t"), Ok("Amount must be greater than zero.".to_string()));
}

#[test]
fn full_history_refuses_an_immediate_transfer() {
    let tx = rust_banking::models::TransactionRecord {
        transaction_id: i32::MAX - 1,
        account_id: 1,
        tx_type: "debit".into(),
        amount: 1,
        description: "".into(),
        created_at: "t".into(),
    };
    let mut bank = Bank::from_tables(users(), vec![account(1, 3, 200000), account(2, 3, 0)], vec![], vec![tx], vec![]).unwrap();
    let m = manager();
    assert_eq!(transfer_money_at(&mut bank, &m, 1, 2, 100, "t"), Err(StoreError::KeysExhausted));
    assert_eq!(bank.accounts[0].balance, 200000);
    // a large transfer records no history and still goes through
    assert_eq!(
        transfer_money_at(&mut bank, &m, 1, 2, 150000, "t"),
        Ok("Transfer submitted. Awaiting manager approval.".to_string())
    );
    // but its approval needs two history rows
    assert_eq!(approve_transfer_at(&mut bank, &m, 1, "u"), Err(StoreError::KeysExhausted));
    assert_eq!(bank.transfers[0].status, "pending");
}

#[test]
fn next_keys_follow_the_last_key() {
    let mut bank = Bank::from_tables(
        users(),
        vec![account(10, 3, 2000000), account(20, 3, 0)],
        vec![transfer(41, 10, 20, 100, "completed")],
        vec![],
        vec![audit(7)],
    )
    .unwrap();
    let m = manager();
    transfer_money_at(&mut bank, &m, 10, 20, 100000, "t").unwrap();
    assert_eq!(bank.transfers[1].transfer_id, 42);
    assert_eq!(bank.audit_log[1].log_id, 8);
    assert_eq!(bank.audit_log[1].prev_hash, "x");
    approve_transfer_at(&mut bank, &m, 42, "u").unwrap();
    assert_eq!(bank.transactions[0].transaction_id, 1);
    assert_eq!(bank.transactions[1].transaction_id, 2);
    assert_eq!(bank.accounts[1].balance, 100000);
}

#[test]
fn overdrawn_destination_still_receives() {
    let mut bank = Bank::from_tables(users(), vec![account(1, 3, 500), account(2, 3, -300)], vec![], vec![], vec![]).unwrap();
    let m = manager();
    transfer_money_at(&mut bank, &m, 1, 2, 400, "t").unwrap();
    assert_eq!(bank.accounts[0].balance, 100);
    assert_eq!(bank.accounts[1].balance, 100);
    // an overdrawn source cannot pay
    let r = transfer_money_at(&mut bank, &m, 2, 1, 101, "t");
    assert_eq!(r, Ok("Insufficient funds.".to_string()));
}
