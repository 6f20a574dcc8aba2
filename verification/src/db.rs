use vstd::prelude::*;

use crate::models::{Account, UserRecord};
use crate::store::{funds_total, Bank};

verus! {

/// The users-table row holds exactly these values.
pub open spec fn user_row_is(
    u: UserRecord,
    user_id: int,
    username: Seq<char>,
    password: Seq<char>,
    full_name: Seq<char>,
    role: Seq<char>,
) -> bool {
    &&& u.user_id == user_id
    &&& u.username@ == username
    &&& u.password@ == password
    &&& u.full_name@ == full_name
    &&& u.role@ == role
}

/// The account row holds exactly these values.
pub open spec fn account_row_is(
    a: Account,
    account_id: int,
    user_id: i32,
    account_type: Seq<char>,
    balance: i64,
    status: Seq<char>,
) -> bool {
    &&& a.account_id == account_id
    &&& a.user_id == user_id
    &&& a.account_type@ == account_type
    &&& a.balance == balance
    &&& a.status@ == status
}

/// The demonstration users, one of each role, all with password `1234`.
pub open spec fn demo_users(u: Seq<UserRecord>) -> bool {
    &&& u.len() == 4
    &&& user_row_is(u[0], 1, "cust1"@, "1234"@, "Ali Customer"@, "customer"@)
    &&& user_row_is(u[1], 2, "teller1"@, "1234"@, "Sara Teller"@, "teller"@)
    &&& user_row_is(u[2], 3, "manager1"@, "1234"@, "Omar Manager"@, "manager"@)
    &&& user_row_is(u[3], 4, "auditor1"@, "1234"@, "Lina Auditor"@, "auditor"@)
}

/// The demonstration accounts: two of the customer, one of the teller, one
/// of the manager, with balances 2500.00, 5000.00, 10000.00 and 20000.00.
pub open spec fn demo_accounts(a: Seq<Account>) -> bool {
    &&& a.len() == 4
    &&& account_row_is(a[0], 1, 1, "checking"@, 250000, "active"@)
    &&& account_row_is(a[1], 2, 1, "savings"@, 500000, "active"@)
    &&& account_row_is(a[2], 3, 2, "checking"@, 1000000, "active"@)
    &&& account_row_is(a[3], 4, 3, "operations"@, 2000000, "active"@)
}

fn user_row(user_id: i32, username: &str, full_name: &str, role: &str) -> (r: UserRecord)
    ensures
        user_row_is(r, user_id as int, username@, "1234"@, full_name@, role@),
{
    UserRecord {
        user_id,
        username: String::from_str(username),
        password: String::from_str("1234"),
        full_name: String::from_str(full_name),
        role: String::from_str(role),
    }
}

fn account_row(account_id: i32, user_id: i32, account_type: &str, balance: i64) -> (r: Account)
    ensures
        account_row_is(r, account_id as int, user_id, account_type@, balance, "active"@),
{
    Account {
        account_id,
        user_id,
        account_type: String::from_str(account_type),
        balance,
        status: String::from_str("active"),
    }
}

/// Fills an empty users table with the demonstration users and an empty
/// accounts table with the demonstration accounts; a table that holds rows
/// is left as it is.
pub fn seed_data(bank: &mut Bank)
    requires
        old(bank).wf(),
    ensures
        final(bank).wf(),
        old(bank).users@.len() == 0 ==> demo_users(final(bank).users@),
        old(bank).users@.len() != 0 ==> final(bank).users@ == old(bank).users@,
        old(bank).accounts@.len() == 0 ==> demo_accounts(final(bank).accounts@),
        old(bank).accounts@.len() != 0 ==> final(bank).accounts@ == old(bank).accounts@,
        final(bank).transfers@ == old(bank).transfers@,
        final(bank).transactions@ == old(bank).transactions@,
        final(bank).audit_log@ == old(bank).audit_log@,
{
    if bank.users.len() == 0 {
        bank.users.push(user_row(1, "cust1", "Ali Customer", "customer"));
        bank.users.push(user_row(2, "teller1", "Sara Teller", "teller"));
        bank.users.push(user_row(3, "manager1", "Omar Manager", "manager"));
        bank.users.push(user_row(4, "auditor1", "Lina Auditor", "auditor"));
    }
    if bank.accounts.len() == 0 {
        bank.accounts.push(account_row(1, 1, "checking", 250000));
        bank.accounts.push(account_row(2, 1, "savings", 500000));
        bank.accounts.push(account_row(3, 2, "checking", 1000000));
        bank.accounts.push(account_row(4, 3, "operations", 2000000));
        proof {
            let a = bank.accounts@;
            assert(a.take(1).drop_last() =~= a.take(0));
            assert(a.take(2).drop_last() =~= a.take(1));
            assert(a.take(3).drop_last() =~= a.take(2));
            assert(a.take(4).drop_last() =~= a.take(3));
            assert(a.take(4) =~= a);
            assert(funds_total(a.take(0)) == 0);
            assert(funds_total(a.take(1)) == 250000);
            assert(funds_total(a.take(2)) == 750000);
            assert(funds_total(a.take(3)) == 1750000);
            assert(funds_total(a) == 3750000);
        }
    }
}

} // verus!
