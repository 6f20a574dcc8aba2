use rust_banking::access_control::{
    can_approve_transfer, can_initiate_transfer, can_view_account, can_view_audit_logs,
};
use rust_banking::models::User;

fn user(id: i32, role: &str) -> User {
    User {
        user_id: id,
        username: format!("user{}", id),
        full_name: format!("User {}", id),
        role: role.to_string(),
    }
}

#[test]
fn customer_sees_only_own_accounts() {
    let c = user(1, "customer");
    assert!(can_view_account(&c, 1));
    assert!(!can_view_account(&c, 2));
    assert!(can_initiate_transfer(&c, 1));
    assert!(!can_initiate_transfer(&c, 2));
    assert!(!can_approve_transfer(&c));
    assert!(!can_view_audit_logs(&c));
}

#[test]
fn teller_moves_money_but_does_not_approve() {
    let t = user(2, "teller");
    assert!(can_view_account(&t, 1));
    assert!(can_initiate_transfer(&t, 1));
    assert!(!can_approve_transfer(&t));
    assert!(!can_view_audit_logs(&t));
}

#[test]
fn manager_does_everything() {
    let m = user(3, "manager");
    assert!(can_view_account(&m, 1));
    assert!(can_initiate_transfer(&m, 1));
    assert!(can_approve_transfer(&m));
    assert!(can_view_audit_logs(&m));
}

#[test]
fn auditor_reads_only() {
    let a = user(4, "auditor");
    assert!(can_view_account(&a, 1));
    assert!(!can_initiate_transfer(&a, 1));
    assert!(!can_approve_transfer(&a));
    assert!(can_view_audit_logs(&a));
}

#[test]
fn unknown_role_has_no_rights() {
    let x = user(5, "visitor");
    assert!(!can_view_account(&x, 5));
    assert!(!can_initiate_transfer(&x, 5));
    assert!(!can_approve_transfer(&x));
    assert!(!can_view_audit_logs(&x));
    let upper = user(6, "Manager");
    assert!(!can_approve_transfer(&upper));
}
