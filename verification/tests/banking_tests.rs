use rust_banking::audit::{generate_hash, list_audit_logs, log_action_at};
use rust_banking::auth::login;
use rust_banking::banking::{
    approve_transfer, approve_transfer_at, get_accessible_accounts, get_account_by_id,
    get_transaction_history, list_pending_transfers, transfer_money, transfer_money_at,
    APPROVAL_THRESHOLD,
};
use rust_banking::db::seed_data;
use rust_banking::models::{Account, AuditRecord, Transfer, User};
use rust_banking::store::{Bank, StoreError};

const T0: &str = "2024-05-01 10:00:00";
const T1: &str = "2024-05-01 11:00:00";

fn seeded() -> Bank {
    let mut bank = Bank::new();
    seed_data(&mut bank);
    bank
}

fn sign_in(bank: &Bank, name: &str) -> User {
    login(bank, name, "1234").expect("seeded user")
}

fn balances(bank: &Bank) -> Vec<i64> {
    bank.accounts.iter().map(|a| a.balance).collect()
}

fn total(bank: &Bank) -> i64 {
    bank.accounts.iter().map(|a| a.balance).sum()
}

#[test]
fn seed_fills_empty_tables_once() {
    let mut bank = seeded();
    assert_eq!(bank.users.len(), 4);
    assert_eq!(bank.users[0].username, "cust1");
    assert_eq!(bank.users[2].role, "manager");
    assert_eq!(balances(&bank), vec![250000, 500000, 1000000, 2000000]);
    assert_eq!(bank.accounts[3].account_type, "operations");
    assert_eq!(bank.accounts[3].user_id, 3);
    seed_data(&mut bank);
    assert_eq!(bank.users.len(), 4);
    assert_eq!(bank.accounts.len(), 4);
}

#[test]
fn login_checks_username_and_password() {
    let bank = seeded();
    let u = login(&bank, "teller1", "1234").unwrap();
    assert_eq!(u.user_id, 2);
    assert_eq!(u.full_name, "Sara Teller");
    assert_eq!(u.role, "teller");
    assert!(login(&bank, "teller1", "4321").is_none());
    assert!(login(&bank, "nobody", "1234").is_none());
    assert!(login(&bank, "TELLER1", "1234").is_none());
}

#[test]
fn small_transfer_completes_at_once() {
    let mut bank = seeded();
    let cust = sign_in(&bank, "cust1");
    let r = transfer_money_at(&mut bank, &cust, 1, 3, 50000, T0);
    assert_eq!(r, Ok("Transfer completed successfully.".to_string()));
    assert_eq!(balances(&bank), vec![200000, 500000, 1050000, 2000000]);
    assert_eq!(total(&bank), 3750000);
    let t = &bank.transfers[0];
    assert_eq!((t.transfer_id, t.from_account, t.to_account, t.amount), (1, 1, 3, 50000));
    assert_eq!(t.status, "completed");
    assert_eq!(t.requested_by, 1);
    assert_eq!(t.approved_by, Some(1));
    assert_eq!(t.created_at, T0);
    assert_eq!(bank.transactions.len(), 2);
    assert_eq!(bank.transactions[0].tx_type, "debit");
    assert_eq!(bank.transactions[0].account_id, 1);
    assert_eq!(bank.transactions[0].description, "Transfer to account 3");
    assert_eq!(bank.transactions[1].tx_type, "credit");
    assert_eq!(bank.transactions[1].account_id, 3);
    assert_eq!(bank.transactions[1].description, "Transfer from account 1");
    assert_eq!(bank.transactions[1].transaction_id, 2);
    let log: &AuditRecord = &bank.audit_log[0];
    assert_eq!(log.action, "TRANSFER_COMPLETED");
    assert_eq!(log.details, "Transfer completed: from 1 to 3 amount 500.00");
    assert_eq!(log.user_id, Some(1));
}

#[test]
fn large_transfer_waits_for_a_manager() {
    let mut bank = seeded();
    let teller = sign_in(&bank, "teller1");
    let before = balances(&bank);
    let r = transfer_money_at(&mut bank, &teller, 3, 1, APPROVAL_THRESHOLD, T0);
    assert_eq!(r, Ok("Transfer submitted. Awaiting manager approval.".to_string()));
    assert_eq!(balances(&bank), before);
    assert_eq!(bank.transfers[0].status, "pending");
    assert_eq!(bank.transfers[0].approved_by, None);
    assert_eq!(bank.transactions.len(), 0);
    assert_eq!(bank.audit_log[0].action, "TRANSFER_PENDING");
    assert_eq!(bank.audit_log[0].details, "Pending transfer created: from 3 to 1 amount 1000.00");
    // just below the threshold moves money
    let r = transfer_money_at(&mut bank, &teller, 3, 1, APPROVAL_THRESHOLD - 1, T0);
    assert_eq!(r, Ok("Transfer completed successfully.".to_string()));
    assert_eq!(bank.accounts[2].balance, 1000000 - 99999);
}

#[test]
fn refusals_are_answered() {
    let mut bank = seeded();
    let cust = sign_in(&bank, "cust1");
    let ok = |m: &str| Ok::<String, StoreError>(m.to_string());
    assert_eq!(transfer_money_at(&mut bank, &cust, 1, 3, 0, T0), ok("Amount must be greater than zero."));
    assert_eq!(transfer_money_at(&mut bank, &cust, 1, 3, -5, T0), ok("Amount must be greater than zero."));
    assert_eq!(
        transfer_money_at(&mut bank, &cust, 1, 1, 100, T0),
        ok("Source and destination accounts must be different.")
    );
    assert_eq!(transfer_money_at(&mut bank, &cust, 9, 1, 100, T0), ok("Source account not found."));
    assert_eq!(transfer_money_at(&mut bank, &cust, 1, 9, 100, T0), ok("Destination account not found."));
    assert_eq!(bank.audit_log.len(), 0);
    assert_eq!(transfer_money_at(&mut bank, &cust, 3, 1, 100, T0), ok("Access denied for this transfer."));
    assert_eq!(bank.audit_log[0].action, "TRANSFER_DENIED");
    assert_eq!(bank.audit_log[0].details, "User cust1 tried transfer from account 3");
    assert_eq!(transfer_money_at(&mut bank, &cust, 1, 3, 250001, T0), ok("Insufficient funds."));
    assert_eq!(bank.audit_log[1].action, "TRANSFER_FAILED");
    assert_eq!(bank.audit_log[1].details, "Insufficient funds in account 1");
    let auditor = sign_in(&bank, "auditor1");
    assert_eq!(transfer_money_at(&mut bank, &auditor, 1, 3, 100, T0), ok("Access denied for this transfer."));
    assert_eq!(balances(&bank), vec![250000, 500000, 1000000, 2000000]);
    assert_eq!(bank.transfers.len(), 0);
}

#[test]
fn approval_by_manager_completes_once() {
    let mut bank = seeded();
    let teller = sign_in(&bank, "teller1");
    let manager = sign_in(&bank, "manager1");
    transfer_money_at(&mut bank, &teller, 3, 1, 300000, T0).unwrap();
    let total_before = total(&bank);
    let r = approve_transfer_at(&mut bank, &teller, 1, T1);
    assert_eq!(r, Ok("Only managers can approve transfers.".to_string()));
    assert_eq!(bank.transfers[0].status, "pending");
    assert_eq!(bank.audit_log.last().unwrap().action, "APPROVAL_DENIED");
    assert_eq!(bank.audit_log.last().unwrap().details, "User teller1 tried approving transfer 1");
    let r = approve_transfer_at(&mut bank, &manager, 1, T1);
    assert_eq!(r, Ok("Transfer approved and completed.".to_string()));
    assert_eq!(balances(&bank), vec![550000, 500000, 700000, 2000000]);
    assert_eq!(total(&bank), total_before);
    let t: &Transfer = &bank.transfers[0];
    assert_eq!(t.status, "completed");
    assert_eq!(t.approved_by, Some(3));
    assert_eq!(t.requested_by, 2);
    assert_eq!(t.created_at, T0);
    assert_eq!(bank.transactions[0].description, "Approved transfer to account 1");
    assert_eq!(bank.transactions[1].description, "Approved transfer from account 3");
    assert_eq!(bank.transactions[1].created_at, T1);
    let last = bank.audit_log.last().unwrap();
    assert_eq!(last.action, "TRANSFER_APPROVED");
    assert_eq!(last.details, "Transfer 1 approved by manager manager1");
    let r = approve_transfer_at(&mut bank, &manager, 1, T1);
    assert_eq!(r, Ok("This transfer is not pending anymore.".to_string()));
    assert_eq!(balances(&bank), vec![550000, 500000, 700000, 2000000]);
    let r = approve_transfer_at(&mut bank, &manager, 7, T1);
    assert_eq!(r, Ok("Transfer not found.".to_string()));
}

#[test]
fn approval_needs_funds_at_approval_time() {
    let mut bank = seeded();
    let cust = sign_in(&bank, "cust1");
    let manager = sign_in(&bank, "manager1");
    transfer_money_at(&mut bank, &cust, 1, 3, 200000, T0).unwrap();
    transfer_money_at(&mut bank, &cust, 1, 2, 90000, T0).unwrap();
    assert_eq!(bank.accounts[0].balance, 160000);
    let r = approve_transfer_at(&mut bank, &manager, 1, T1);
    assert_eq!(
        r,
        Ok("Cannot approve transfer because the source account has insufficient funds.".to_string())
    );
    assert_eq!(bank.transfers[0].status, "pending");
}

#[test]
fn pending_then_approved_moves_what_a_direct_transfer_moves() {
    let mut direct = seeded();
    let mut staged = seeded();
    let manager = sign_in(&direct, "manager1");
    // a direct transfer below the threshold, twice, against one approved large transfer
    transfer_money_at(&mut direct, &manager, 4, 2, 60000, T0).unwrap();
    transfer_money_at(&mut direct, &manager, 4, 2, 60000, T0).unwrap();
    transfer_money_at(&mut staged, &manager, 4, 2, 120000, T0).unwrap();
    approve_transfer_at(&mut staged, &manager, 1, T1).unwrap();
    assert_eq!(balances(&direct), balances(&staged));
}

#[test]
fn reads_follow_roles() {
    let mut bank = seeded();
    let cust = sign_in(&bank, "cust1");
    let teller = sign_in(&bank, "teller1");
    let ids = |v: Vec<Account>| v.iter().map(|a| a.account_id).collect::<Vec<_>>();
    assert_eq!(ids(get_accessible_accounts(&bank, &cust)), vec![1, 2]);
    assert_eq!(ids(get_accessible_accounts(&bank, &teller)), vec![1, 2, 3, 4]);
    let stranger = User { user_id: 9, username: "x".into(), full_name: "X".into(), role: "visitor".into() };
    assert_eq!(ids(get_accessible_accounts(&bank, &stranger)), vec![1, 2, 3, 4]);
    assert_eq!(get_account_by_id(&bank, 3).unwrap().balance, 1000000);
    assert!(get_account_by_id(&bank, 5).is_none());

    transfer_money_at(&mut bank, &cust, 1, 3, 1000, T0).unwrap();
    transfer_money_at(&mut bank, &cust, 2, 3, 2000, T1).unwrap();
    let h = get_transaction_history(&bank, &cust, 1);
    assert_eq!(h.len(), 1);
    assert_eq!(h[0].amount, 1000);
    let h = get_transaction_history(&bank, &teller, 3);
    assert_eq!(h.iter().map(|x| x.transaction_id).collect::<Vec<_>>(), vec![4, 2]);
    assert!(get_transaction_history(&bank, &cust, 3).is_empty());
    assert!(get_transaction_history(&bank, &stranger, 3).is_empty());
    assert!(get_transaction_history(&bank, &teller, 42).is_empty());
}

#[test]
fn pending_list_is_newest_first() {
    let mut bank = seeded();
    let manager = sign_in(&bank, "manager1");
    transfer_money_at(&mut bank, &manager, 4, 1, 100000, T0).unwrap();
    transfer_money_at(&mut bank, &manager, 4, 1, 100, T0).unwrap();
    transfer_money_at(&mut bank, &manager, 4, 2, 150000, T0).unwrap();
    let p = list_pending_transfers(&bank);
    assert_eq!(p.iter().map(|t| t.transfer_id).collect::<Vec<_>>(), vec![3, 1]);
    approve_transfer_at(&mut bank, &manager, 3, T1).unwrap();
    let p = list_pending_transfers(&bank);
    assert_eq!(p.iter().map(|t| t.transfer_id).collect::<Vec<_>>(), vec![1]);
}

#[test]
fn audit_log_is_a_hash_chain() {
    let mut bank = Bank::new();
    log_action_at(&mut bank, None, "BOOT", "first", T0).unwrap();
    log_action_at(&mut bank, Some(-7), "LOGIN", "second", T1).unwrap();
    let a = &bank.audit_log[0];
    assert_eq!(a.log_id, 1);
    assert_eq!(a.prev_hash, "GENESIS");
    assert_eq!(a.current_hash, generate_hash(&format!("NULL|BOOT|first|{}|GENESIS", T0)));
    let b = &bank.audit_log[1];
    assert_eq!(b.log_id, 2);
    assert_eq!(b.prev_hash, a.current_hash);
    assert_eq!(b.current_hash, generate_hash(&format!("-7|LOGIN|second|{}|{}", T1, a.current_hash)));
}

#[test]
fn audit_list_honours_the_limit() {
    let mut bank = Bank::new();
    for i in 0..5 {
        log_action_at(&mut bank, Some(i), "A", "d", T0).unwrap();
    }
    let ids = |v: Vec<AuditRecord>| v.iter().map(|r| r.log_id).collect::<Vec<_>>();
    assert_eq!(ids(list_audit_logs(&bank, 2)), vec![5, 4]);
    assert_eq!(ids(list_audit_logs(&bank, 0)), Vec::<i32>::new());
    assert_eq!(ids(list_audit_logs(&bank, 20)), vec![5, 4, 3, 2, 1]);
    assert_eq!(ids(list_audit_logs(&bank, -1)), vec![5, 4, 3, 2, 1]);
}

#[test]
fn timestamped_calls_record_a_time() {
    let mut bank = seeded();
    let cust = sign_in(&bank, "cust1");
    let manager = sign_in(&bank, "manager1");
    assert_eq!(transfer_money(&mut bank, &cust, 1, 2, 100), Ok("Transfer completed successfully.".to_string()));
    assert_eq!(bank.transactions[0].created_at.len(), 19);
    assert_eq!(transfer_money(&mut bank, &cust, 1, 2, 150000), Ok("Transfer submitted. Awaiting manager approval.".to_string()));
    assert_eq!(approve_transfer(&mut bank, &manager, 2), Ok("Transfer approved and completed.".to_string()));
    assert_eq!(bank.accounts[0].balance, 250000 - 100 - 150000);
    assert_eq!(bank.audit_log.len(), 3);
    assert_eq!(bank.audit_log[2].prev_hash, bank.audit_log[1].current_hash);
}

#[test]
fn refusals_on_amount_or_accounts_need_no_clock() {
    let mut bank = seeded();
    let cust = sign_in(&bank, "cust1");
    let ok = |m: &str| Ok::<String, StoreError>(m.to_string());
    assert_eq!(transfer_money(&mut bank, &cust, 1, 3, 0), ok("Amount must be greater than zero."));
    assert_eq!(transfer_money(&mut bank, &cust, 1, 1, 100), ok("Source and destination accounts must be different."));
    assert_eq!(transfer_money(&mut bank, &cust, 9, 1, 100), ok("Source account not found."));
    assert_eq!(transfer_money(&mut bank, &cust, 1, 9, 100), ok("Destination account not found."));
    assert!(bank.audit_log.is_empty());
    assert!(bank.transfers.is_empty());
}

#[test]
fn manager_refusals_write_nothing() {
    let mut bank = seeded();
    let cust = sign_in(&bank, "cust1");
    let mgr = sign_in(&bank, "manager1");
    let ok = |m: &str| Ok::<String, StoreError>(m.to_string());
    assert_eq!(approve_transfer(&mut bank, &mgr, 7), ok("Transfer not found."));
    assert_eq!(transfer_money_at(&mut bank, &cust, 1, 3, 150000, T0), ok("Transfer submitted. Awaiting manager approval."));
    assert_eq!(transfer_money_at(&mut bank, &cust, 1, 3, 200000, T0), ok("Transfer submitted. Awaiting manager approval."));
    let logged = bank.audit_log.len();
    assert_eq!(approve_transfer(&mut bank, &mgr, 1), ok("Transfer approved and completed."));
    assert_eq!(
        approve_transfer(&mut bank, &mgr, 2),
        ok("Cannot approve transfer because the source account has insufficient funds.")
    );
    assert_eq!(approve_transfer(&mut bank, &mgr, 1), ok("This transfer is not pending anymore."));
    assert_eq!(bank.audit_log.len(), logged + 1);
    assert_eq!(bank.transfers[1].status, "pending");
}
