use rust_banking::db::seed_data;
use rust_banking::models::User;
use rust_banking::session::{shows_transfer_screen, Screen, Session};
use rust_banking::text::short_hash;
use rust_banking::store::Bank;

fn seeded() -> Bank {
    let mut bank = Bank::new();
    seed_data(&mut bank);
    bank
}

#[test]
fn blank_or_wrong_credentials() {
    let mut bank = seeded();
    let mut s = Session::new();
    s.login(&mut bank, "", "1234");
    assert_eq!(s.status_message, "Please enter both username and password.");
    assert!(s.current_user.is_none());
    s.login(&mut bank, "cust1", "");
    assert_eq!(s.status_message, "Please enter both username and password.");
    s.login(&mut bank, "cust1", "nope");
    assert_eq!(s.status_message, "Invalid username or password.");
    assert_eq!(s.screen, Screen::Login);
    assert_eq!(bank.audit_log.len(), 0);
}

#[test]
fn login_loads_the_lists_of_the_role() {
    let mut bank = seeded();
    let mut s = Session::new();
    s.login(&mut bank, "cust1", "1234");
    assert_eq!(s.status_message, "Login successful.");
    assert_eq!(s.screen, Screen::Dashboard);
    assert_eq!(s.accounts.len(), 2);
    assert!(s.pending_transfers.is_empty());
    assert!(s.audit_logs.is_empty());
    assert_eq!(bank.audit_log[0].action, "LOGIN_SUCCESS");
    assert_eq!(bank.audit_log[0].details, "cust1 logged in as customer");

    let mut m = Session::new();
    m.login(&mut bank, "manager1", "1234");
    assert_eq!(m.accounts.len(), 4);
    assert_eq!(m.audit_logs.len(), 2);
    assert_eq!(m.audit_logs[0].details, "manager1 logged in as manager");

    let mut a = Session::new();
    a.login(&mut bank, "auditor1", "1234");
    assert_eq!(a.audit_logs.len(), 3);
    assert!(a.pending_transfers.is_empty());
}

#[test]
fn logout_clears_everything() {
    let mut bank = seeded();
    let mut s = Session::new();
    s.login(&mut bank, "teller1", "1234");
    s.logout(&mut bank);
    assert!(s.current_user.is_none());
    assert_eq!(s.screen, Screen::Login);
    assert_eq!(s.status_message, "Logged out.");
    assert!(s.accounts.is_empty());
    assert_eq!(bank.audit_log[1].action, "LOGOUT");
    assert_eq!(bank.audit_log[1].details, "teller1 logged out");
    s.logout(&mut bank);
    assert_eq!(bank.audit_log.len(), 2);
}

#[test]
fn history_messages() {
    let mut bank = seeded();
    let mut s = Session::new();
    s.load_history(&bank, None);
    assert_eq!(s.status_message, "Account ID must be a number.");
    s.login(&mut bank, "cust1", "1234");
    s.load_history(&bank, Some(1));
    assert_eq!(s.status_message, "No history found, or access was denied.");
    assert_eq!(s.submit_transfer(&mut bank, Some(1), Some(2), Some(2500)), (true, Some((1, 2, 2500))));
    s.load_history(&bank, Some(1));
    assert_eq!(s.status_message, "Loaded history for account 1.");
    assert_eq!(s.transactions.len(), 1);
    s.load_history(&bank, Some(3));
    assert_eq!(s.status_message, "No history found, or access was denied.");
    assert!(s.transactions.is_empty());
}

#[test]
fn transfer_inputs_and_answers() {
    let mut bank = seeded();
    let mut s = Session::new();
    assert_eq!(s.submit_transfer(&mut bank, Some(1), Some(2), Some(5)), (false, None));
    s.login(&mut bank, "cust1", "1234");
    assert_eq!(s.submit_transfer(&mut bank, None, Some(2), Some(5)), (false, None));
    assert_eq!(s.status_message, "From account ID must be a number.");
    assert_eq!(s.submit_transfer(&mut bank, Some(1), None, Some(5)), (false, None));
    assert_eq!(s.status_message, "To account ID must be a number.");
    assert_eq!(s.submit_transfer(&mut bank, Some(1), Some(2), None), (false, None));
    assert_eq!(s.status_message, "Amount must be a valid number.");
    assert_eq!(s.submit_transfer(&mut bank, Some(1), Some(3), Some(120000)), (true, Some((1, 3, 120000))));
    assert_eq!(s.status_message, "Transfer submitted. Awaiting manager approval.");
    // refused transfers are not handed on to the chain
    assert_eq!(s.submit_transfer(&mut bank, Some(3), Some(1), Some(10)), (true, None));
    assert_eq!(s.status_message, "Access denied for this transfer.");
    assert_eq!(s.submit_transfer(&mut bank, Some(1), Some(3), Some(900000)), (true, None));
    assert_eq!(s.status_message, "Insufficient funds.");
    assert_eq!(s.submit_transfer(&mut bank, Some(1), Some(3), Some(0)), (true, None));
    assert_eq!(s.status_message, "Amount must be greater than zero.");
    assert_eq!(s.submit_transfer(&mut bank, Some(1), Some(3), Some(700)), (true, Some((1, 3, 700))));
    assert_eq!(s.status_message, "Transfer completed successfully.");
}

#[test]
fn approval_after_the_chain() {
    let mut bank = seeded();
    let mut c = Session::new();
    c.login(&mut bank, "cust1", "1234");
    c.submit_transfer(&mut bank, Some(2), Some(4), Some(200000));
    let mut m = Session::new();
    m.login(&mut bank, "manager1", "1234");
    assert_eq!(m.pending_transfers.len(), 1);
    assert!(m.approve_selected_transfer(&mut bank, 1));
    assert_eq!(m.status_message, "Transfer approved and completed. | On-chain approval successful.");
    assert!(m.pending_transfers.is_empty());
    assert_eq!(bank.accounts[1].balance, 300000);
    assert!(m.approve_selected_transfer(&mut bank, 1));
    assert_eq!(m.status_message, "This transfer is not pending anymore. | On-chain approval successful.");
    let mut nobody = Session::new();
    assert!(!nobody.approve_selected_transfer(&mut bank, 1));
}

#[test]
fn approval_steps() {
    let mut bank = seeded();
    let mut c = Session::new();
    c.login(&mut bank, "cust1", "1234");
    c.submit_transfer(&mut bank, Some(2), Some(4), Some(200000));
    let mut m = Session::new();
    m.login(&mut bank, "manager1", "1234");
    assert_eq!(m.begin_approval(&mut bank, None, true), None);
    assert_eq!(m.status_message, "Transfer ID must be a number.");
    assert_eq!(m.begin_approval(&mut bank, Some(1), false), None);
    assert_eq!(m.status_message, "Transfer request pubkey is invalid.");
    assert_eq!(m.begin_approval(&mut bank, Some(1), true), Some(1));
    m.chain_approval_failed("connection refused");
    assert_eq!(m.status_message, "Blockchain approval failed: connection refused");
    assert_eq!(bank.transfers[0].status, "pending");

    // a customer never reaches the chain: the bank refuses and audits
    let logged = bank.audit_log.len();
    assert_eq!(c.begin_approval(&mut bank, Some(1), true), None);
    assert_eq!(c.status_message, "Only managers can approve transfers.");
    assert_eq!(bank.audit_log.len(), logged + 1);
    assert_eq!(bank.audit_log[logged].action, "APPROVAL_DENIED");
    assert_eq!(bank.transfers[0].status, "pending");

    let mut nobody = Session::new();
    assert_eq!(nobody.begin_approval(&mut bank, Some(1), true), None);
}

#[test]
fn transfer_screen_for_all_but_auditors() {
    let u = |role: &str| User { user_id: 1, username: "u".into(), full_name: "U".into(), role: role.into() };
    assert!(shows_transfer_screen(&u("customer")));
    assert!(shows_transfer_screen(&u("teller")));
    assert!(shows_transfer_screen(&u("manager")));
    assert!(!shows_transfer_screen(&u("auditor")));
}

#[test]
fn timed_login_and_logout_are_audited_at_that_time() {
    let mut bank = seeded();
    let mut s = Session::new();
    s.login_at(&mut bank, "cust1", "1234", Some("2024-01-02 03:04:05"));
    assert_eq!(bank.audit_log.len(), 1);
    assert_eq!(bank.audit_log[0].action, "LOGIN_SUCCESS");
    assert_eq!(bank.audit_log[0].created_at, "2024-01-02 03:04:05");
    s.logout_at(&mut bank, Some("2024-01-02 03:05:00"));
    assert_eq!(bank.audit_log.len(), 2);
    assert_eq!(bank.audit_log[1].action, "LOGOUT");
    assert_eq!(bank.audit_log[1].created_at, "2024-01-02 03:05:00");
    assert_eq!(bank.audit_log[1].prev_hash, bank.audit_log[0].current_hash);
}

#[test]
fn without_a_time_sign_in_still_works_unaudited() {
    let mut bank = seeded();
    let mut s = Session::new();
    s.login_at(&mut bank, "cust1", "1234", None);
    assert_eq!(s.status_message, "Login successful.");
    assert_eq!(s.screen, Screen::Dashboard);
    assert!(bank.audit_log.is_empty());
    s.logout_at(&mut bank, None);
    assert_eq!(s.screen, Screen::Login);
    assert!(bank.audit_log.is_empty());
    s.login_at(&mut bank, "cust1", "nope", Some("2024-01-02 03:04:05"));
    assert_eq!(s.status_message, "Invalid username or password.");
    assert!(bank.audit_log.is_empty());
}

#[test]
fn screens_open_only_when_signed_in() {
    let mut bank = seeded();
    let mut s = Session::new();
    s.open_screen(Screen::Accounts);
    assert_eq!(s.screen, Screen::Login);
    s.login(&mut bank, "cust1", "1234");
    s.open_screen(Screen::Transfer);
    assert_eq!(s.screen, Screen::Transfer);
    s.open_screen(Screen::Login);
    assert_eq!(s.screen, Screen::Transfer);
    s.logout(&mut bank);
    assert_eq!(s.screen, Screen::Login);
    assert!(s.current_user.is_none());
}

#[test]
fn each_list_reloads_alone() {
    let mut bank = seeded();
    let mut c = Session::new();
    c.login(&mut bank, "cust1", "1234");
    let mut m = Session::new();
    m.login(&mut bank, "manager1", "1234");
    let logs = m.audit_logs.len();
    c.submit_transfer(&mut bank, Some(2), Some(4), Some(200000));
    m.load_accounts(&bank);
    assert_eq!(m.accounts.len(), 4);
    assert!(m.pending_transfers.is_empty());
    m.load_pending_transfers(&bank);
    assert_eq!(m.pending_transfers.len(), 1);
    assert_eq!(m.audit_logs.len(), logs);
    m.load_audit_logs(&bank);
    assert_eq!(m.audit_logs.len(), logs + 1);
    assert_eq!(m.audit_logs[0].action, "TRANSFER_PENDING");
    c.load_pending_transfers(&bank);
    assert!(c.pending_transfers.is_empty());
}

#[test]
fn hashes_are_shortened_past_twenty_bytes() {
    assert_eq!(short_hash("GENESIS"), "GENESIS");
    assert_eq!(short_hash("0123456789abcdef0123"), "0123456789abcdef0123");
    assert_eq!(
        short_hash("0123456789abcdef0123456789abcdef"),
        "0123456789abcdef0123..."
    );
}
