use vstd::prelude::*;

use crate::models::User;
use crate::text::str_eq;

verus! {

/// Whether `current_user` may see an account owned by `owner_user_id`:
/// a customer only their own accounts; a teller, manager or auditor every
/// account; any other role none.
pub open spec fn spec_can_view_account(current_user: User, owner_user_id: i32) -> bool {
    if current_user.role@ == "customer"@ {
        current_user.user_id == owner_user_id
    } else {
        current_user.role@ == "teller"@ || current_user.role@ == "manager"@
            || current_user.role@ == "auditor"@
    }
}

/// Whether `current_user` may move money out of an account owned by
/// `owner_user_id`: a customer only from their own accounts; a teller or
/// manager from every account; an auditor or any other role from none.
pub open spec fn spec_can_initiate_transfer(current_user: User, owner_user_id: i32) -> bool {
    if current_user.role@ == "customer"@ {
        current_user.user_id == owner_user_id
    } else {
        current_user.role@ == "teller"@ || current_user.role@ == "manager"@
    }
}

/// Only managers approve transfers.
pub open spec fn spec_can_approve_transfer(current_user: User) -> bool {
    current_user.role@ == "manager"@
}

/// Auditors and managers read the audit log.
pub open spec fn spec_can_view_audit_logs(current_user: User) -> bool {
    current_user.role@ == "auditor"@ || current_user.role@ == "manager"@
}

pub fn can_view_account(current_user: &User, owner_user_id: i32) -> (r: bool)
    ensures
        r == spec_can_view_account(*current_user, owner_user_id),
{
    let role = current_user.role.as_str();
    if str_eq(role, "customer") {
        current_user.user_id == owner_user_id
    } else {
        str_eq(role, "teller") || str_eq(role, "manager") || str_eq(role, "auditor")
    }
}

pub fn can_initiate_transfer(current_user: &User, owner_user_id: i32) -> (r: bool)
    ensures
        r == spec_can_initiate_transfer(*current_user, owner_user_id),
{
    let role = current_user.role.as_str();
    if str_eq(role, "customer") {
        current_user.user_id == owner_user_id
    } else {
        str_eq(role, "teller") || str_eq(role, "manager")
    }
}

pub fn can_approve_transfer(current_user: &User) -> (r: bool)
    ensures
        r == spec_can_approve_transfer(*current_user),
{
    str_eq(current_user.role.as_str(), "manager")
}

pub fn can_view_audit_logs(current_user: &User) -> (r: bool)
    ensures
        r == spec_can_view_audit_logs(*current_user),
{
    let role = current_user.role.as_str();
    str_eq(role, "auditor") || str_eq(role, "manager")
}

/// The four role names are pairwise different.
proof fn lemma_role_names_distinct()
    ensures
        "customer"@ != "teller"@,
        "customer"@ != "manager"@,
        "customer"@ != "auditor"@,
        "teller"@ != "manager"@,
        "teller"@ != "auditor"@,
        "manager"@ != "auditor"@,
{
    reveal_strlit("customer");
    reveal_strlit("teller");
    reveal_strlit("manager");
    reveal_strlit("auditor");
    assert("customer"@.len() == 8);
    assert("teller"@.len() == 6);
    assert("manager"@.len() == 7);
    assert("auditor"@.len() == 7);
    assert("manager"@[0] != "auditor"@[0]);
}

/// Whoever may move money out of an account may also see it.
pub proof fn lemma_initiate_implies_view(current_user: User, owner_user_id: i32)
    ensures
        spec_can_initiate_transfer(current_user, owner_user_id) ==> spec_can_view_account(
            current_user,
            owner_user_id,
        ),
{
}

/// Whoever may approve transfers may also read the audit log, and may move
/// money out of, and see, every account.
pub proof fn lemma_approver_powers(current_user: User, owner_user_id: i32)
    ensures
        spec_can_approve_transfer(current_user) ==> {
            &&& spec_can_view_audit_logs(current_user)
            &&& spec_can_initiate_transfer(current_user, owner_user_id)
            &&& spec_can_view_account(current_user, owner_user_id)
        },
{
    lemma_role_names_distinct();
}

/// A customer never approves transfers, never reads the audit log, and
/// neither sees nor moves money out of another user's account.
pub proof fn lemma_customer_confined(current_user: User, owner_user_id: i32)
    requires
        current_user.role@ == "customer"@,
        owner_user_id != current_user.user_id,
    ensures
        !spec_can_approve_transfer(current_user),
        !spec_can_view_audit_logs(current_user),
        !spec_can_view_account(current_user, owner_user_id),
        !spec_can_initiate_transfer(current_user, owner_user_id),
{
    lemma_role_names_distinct();
}

/// An auditor reads every account and the audit log but never moves money
/// and never approves a transfer.
pub proof fn lemma_auditor_read_only(current_user: User, owner_user_id: i32)
    requires
        current_user.role@ == "auditor"@,
    ensures
        spec_can_view_account(current_user, owner_user_id),
        spec_can_view_audit_logs(current_user),
        !spec_can_initiate_transfer(current_user, owner_user_id),
        !spec_can_approve_transfer(current_user),
{
    lemma_role_names_distinct();
}

} // verus!
