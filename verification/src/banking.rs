use vstd::prelude::*;

use crate::access_control::{
    can_approve_transfer, can_initiate_transfer, can_view_account, spec_can_approve_transfer,
    spec_can_initiate_transfer, spec_can_view_account,
};
use crate::audit::{appended_entry, chain_valid, log_action_at};
use crate::clock::{current_timestamp, is_timestamp_text};
use crate::models::{Account, Row, TransactionRecord, Transfer, User};
use crate::store::{
    account_exists, account_index, account_of, find_account, funds_total, lemma_account_index,
    lemma_move_funds_bounded, move_funds, set_balance, total_balance, Bank, StoreError,
};
use crate::table::{
    find_key, has_room, key_exists, key_index, keys_increasing, lemma_push_keeps_increasing,
    lemma_filter_keeps_increasing, lemma_update_keeps_increasing, next_key, next_key_of, room_for,
};
use crate::text::{int_text, money_text, push_int, push_money, str_eq};

verus! {

/// Transfers of this many cents (1000.00) or more wait for a manager.
pub const APPROVAL_THRESHOLD: i64 = 100000;

// ---------------------------------------------------------------------
// Texts of the audit entries and account histories
// ---------------------------------------------------------------------

pub open spec fn denied_transfer_details(user: User, from_account: i32) -> Seq<char> {
    "User "@ + user.username@ + " tried transfer from account "@ + int_text(from_account as int)
}

pub open spec fn failed_transfer_details(from_account: i32) -> Seq<char> {
    "Insufficient funds in account "@ + int_text(from_account as int)
}

/// `<lead>` `from X to Y amount M`, as the pending and completed entries write it.
pub open spec fn movement_details(lead: Seq<char>, from_account: i32, to_account: i32, amount: i64) -> Seq<char> {
    lead + int_text(from_account as int) + " to "@ + int_text(to_account as int) + " amount "@
        + money_text(amount as nat)
}

pub open spec fn pending_transfer_details(from_account: i32, to_account: i32, amount: i64) -> Seq<char> {
    movement_details("Pending transfer created: from "@, from_account, to_account, amount)
}

pub open spec fn completed_transfer_details(from_account: i32, to_account: i32, amount: i64) -> Seq<char> {
    movement_details("Transfer completed: from "@, from_account, to_account, amount)
}

pub open spec fn denied_approval_details(user: User, transfer_id: i32) -> Seq<char> {
    "User "@ + user.username@ + " tried approving transfer "@ + int_text(transfer_id as int)
}

pub open spec fn approved_details(user: User, transfer_id: i32) -> Seq<char> {
    "Transfer "@ + int_text(transfer_id as int) + " approved by manager "@ + user.username@
}

/// A text followed by an account id.
pub open spec fn with_account(lead: Seq<char>, account_id: i32) -> Seq<char> {
    lead + int_text(account_id as int)
}

fn text_with_id(lead: &str, id: i32) -> (r: String)
    ensures
        r@ == lead@ + int_text(id as int),
{
    let mut s = String::from_str(lead);
    push_int(&mut s, id);
    s
}

fn text_user_id(lead: &str, user: &User, middle: &str, id: i32) -> (r: String)
    ensures
        r@ == lead@ + user.username@ + middle@ + int_text(id as int),
{
    let mut s = String::from_str(lead);
    s.append(user.username.as_str());
    s.append(middle);
    push_int(&mut s, id);
    s
}

fn movement_text(lead: &str, from_account: i32, to_account: i32, amount: i64) -> (r: String)
    requires
        amount > 0,
    ensures
        r@ == movement_details(lead@, from_account, to_account, amount),
{
    let mut s = String::from_str(lead);
    push_int(&mut s, from_account);
    s.append(" to ");
    push_int(&mut s, to_account);
    s.append(" amount ");
    push_money(&mut s, amount as u64);
    s
}

fn approved_text(user: &User, transfer_id: i32) -> (r: String)
    ensures
        r@ == approved_details(*user, transfer_id),
{
    let mut s = String::from_str("Transfer ");
    push_int(&mut s, transfer_id);
    s.append(" approved by manager ");
    s.append(user.username.as_str());
    s
}

// ---------------------------------------------------------------------
// How a call leaves the tables
// ---------------------------------------------------------------------

/// The call answered with this message.
pub open spec fn says(r: Result<String, StoreError>, msg: Seq<char>) -> bool {
    r matches Ok(m) && m@ == msg
}

/// No table changed.
pub open spec fn same_tables(b0: Bank, b1: Bank) -> bool {
    &&& b1.users@ == b0.users@
    &&& b1.accounts@ == b0.accounts@
    &&& b1.transfers@ == b0.transfers@
    &&& b1.transactions@ == b0.transactions@
    &&& b1.audit_log@ == b0.audit_log@
}

/// Nothing changed but one entry appended to the audit log, and the call
/// answered `msg`; or, where the log has no key left, nothing changed and
/// the call failed.
pub open spec fn audit_only(
    b0: Bank,
    b1: Bank,
    r: Result<String, StoreError>,
    user_id: Option<i32>,
    action: Seq<char>,
    details: Seq<char>,
    created_at: Seq<char>,
    msg: Seq<char>,
) -> bool {
    if has_room(b0.audit_log@, 1) {
        &&& b1.users@ == b0.users@
        &&& b1.accounts@ == b0.accounts@
        &&& b1.transfers@ == b0.transfers@
        &&& b1.transactions@ == b0.transactions@
        &&& appended_entry(b0.audit_log@, b1.audit_log@, user_id, action, details, created_at)
        &&& says(r, msg)
    } else {
        same_tables(b0, b1) && r == Err::<String, StoreError>(StoreError::KeysExhausted)
    }
}

/// The transfer row holds exactly these values.
pub open spec fn transfer_row_is(
    t: Transfer,
    transfer_id: int,
    from_account: i32,
    to_account: i32,
    amount: i64,
    status: Seq<char>,
    requested_by: i32,
    approved_by: Option<i32>,
    created_at: Seq<char>,
) -> bool {
    &&& t.transfer_id == transfer_id
    &&& t.from_account == from_account
    &&& t.to_account == to_account
    &&& t.amount == amount
    &&& t.status@ == status
    &&& t.requested_by == requested_by
    &&& t.approved_by == approved_by
    &&& t.created_at@ == created_at
}

/// The history row holds exactly these values.
pub open spec fn transaction_row_is(
    x: TransactionRecord,
    transaction_id: int,
    account_id: i32,
    tx_type: Seq<char>,
    amount: i64,
    description: Seq<char>,
    created_at: Seq<char>,
) -> bool {
    &&& x.transaction_id == transaction_id
    &&& x.account_id == account_id
    &&& x.tx_type@ == tx_type
    &&& x.amount == amount
    &&& x.description@ == description
    &&& x.created_at@ == created_at
}

/// `t1` is `t0` with one transfer row more, holding these values under the
/// next key.
pub open spec fn transfer_appended(
    t0: Seq<Transfer>,
    t1: Seq<Transfer>,
    from_account: i32,
    to_account: i32,
    amount: i64,
    status: Seq<char>,
    requested_by: i32,
    approved_by: Option<i32>,
    created_at: Seq<char>,
) -> bool {
    &&& t1.len() == t0.len() + 1
    &&& t1.drop_last() == t0
    &&& transfer_row_is(t1.last(), next_key(t0), from_account, to_account, amount, status, requested_by, approved_by, created_at)
}

/// `x1` is `x0` with a debit row of `from_account` and then a credit row of
/// `to_account` appended, under the next two keys.
pub open spec fn movement_recorded(
    x0: Seq<TransactionRecord>,
    x1: Seq<TransactionRecord>,
    from_account: i32,
    to_account: i32,
    amount: i64,
    debit_description: Seq<char>,
    credit_description: Seq<char>,
    created_at: Seq<char>,
) -> bool {
    &&& x1.len() == x0.len() + 2
    &&& x1.subrange(0, x0.len() as int) == x0
    &&& transaction_row_is(x1[x0.len() as int], next_key(x0), from_account, "debit"@, amount, debit_description, created_at)
    &&& transaction_row_is(x1[x0.len() as int + 1], next_key(x0) + 1, to_account, "credit"@, amount, credit_description, created_at)
}

/// What `transfer_money` does, for a call at time `created_at`.
pub open spec fn transfer_money_post(
    b0: Bank,
    b1: Bank,
    user: User,
    from_account: i32,
    to_account: i32,
    amount: i64,
    created_at: Seq<char>,
    r: Result<String, StoreError>,
) -> bool {
    if amount <= 0 {
        same_tables(b0, b1) && says(r, "Amount must be greater than zero."@)
    } else if from_account == to_account {
        same_tables(b0, b1) && says(r, "Source and destination accounts must be different."@)
    } else if !account_exists(b0.accounts@, from_account) {
        same_tables(b0, b1) && says(r, "Source account not found."@)
    } else if !account_exists(b0.accounts@, to_account) {
        same_tables(b0, b1) && says(r, "Destination account not found."@)
    } else if !spec_can_initiate_transfer(user, account_of(b0.accounts@, from_account).user_id) {
        audit_only(b0, b1, r, Some(user.user_id), "TRANSFER_DENIED"@,
            denied_transfer_details(user, from_account), created_at,
            "Access denied for this transfer."@)
    } else if account_of(b0.accounts@, from_account).balance < amount {
        audit_only(b0, b1, r, Some(user.user_id), "TRANSFER_FAILED"@,
            failed_transfer_details(from_account), created_at, "Insufficient funds."@)
    } else if amount >= APPROVAL_THRESHOLD {
        if has_room(b0.transfers@, 1) && has_room(b0.audit_log@, 1) {
            &&& b1.users@ == b0.users@
            &&& b1.accounts@ == b0.accounts@
            &&& b1.transactions@ == b0.transactions@
            &&& transfer_appended(b0.transfers@, b1.transfers@, from_account, to_account, amount,
                "pending"@, user.user_id, None, created_at)
            &&& appended_entry(b0.audit_log@, b1.audit_log@, Some(user.user_id), "TRANSFER_PENDING"@,
                pending_transfer_details(from_account, to_account, amount), created_at)
            &&& says(r, "Transfer submitted. Awaiting manager approval."@)
        } else {
            same_tables(b0, b1) && r == Err::<String, StoreError>(StoreError::KeysExhausted)
        }
    } else {
        if has_room(b0.transfers@, 1) && has_room(b0.transactions@, 2) && has_room(b0.audit_log@, 1) {
            &&& b1.users@ == b0.users@
            &&& b1.accounts@ == move_funds(b0.accounts@, from_account, to_account, amount as int)
            &&& transfer_appended(b0.transfers@, b1.transfers@, from_account, to_account, amount,
                "completed"@, user.user_id, Some(user.user_id), created_at)
            &&& movement_recorded(b0.transactions@, b1.transactions@, from_account, to_account, amount,
                with_account("Transfer to account "@, to_account),
                with_account("Transfer from account "@, from_account), created_at)
            &&& appended_entry(b0.audit_log@, b1.audit_log@, Some(user.user_id), "TRANSFER_COMPLETED"@,
                completed_transfer_details(from_account, to_account, amount), created_at)
            &&& says(r, "Transfer completed successfully."@)
        } else {
            same_tables(b0, b1) && r == Err::<String, StoreError>(StoreError::KeysExhausted)
        }
    }
}

/// The transfer with this id.
pub open spec fn transfer_of(s: Seq<Transfer>, transfer_id: i32) -> Transfer {
    s[key_index(s, transfer_id)]
}

/// `t1` is `t0` with the transfer `transfer_id` marked completed and
/// approved by `approver`, every other row and field left as it was.
pub open spec fn transfer_completed(t0: Seq<Transfer>, t1: Seq<Transfer>, transfer_id: i32, approver: i32) -> bool {
    let i = key_index(t0, transfer_id);
    let t = t0[i];
    &&& t1.len() == t0.len()
    &&& forall|j: int| 0 <= j < t0.len() && j != i ==> #[trigger] t1[j] == t0[j]
    &&& transfer_row_is(t1[i], t.transfer_id as int, t.from_account, t.to_account, t.amount,
        "completed"@, t.requested_by, Some(approver), t.created_at@)
}

/// What `approve_transfer` does, for a call at time `created_at`.
pub open spec fn approve_transfer_post(
    b0: Bank,
    b1: Bank,
    user: User,
    transfer_id: i32,
    created_at: Seq<char>,
    r: Result<String, StoreError>,
) -> bool {
    if !spec_can_approve_transfer(user) {
        audit_only(b0, b1, r, Some(user.user_id), "APPROVAL_DENIED"@,
            denied_approval_details(user, transfer_id), created_at,
            "Only managers can approve transfers."@)
    } else if !key_exists(b0.transfers@, transfer_id) {
        same_tables(b0, b1) && says(r, "Transfer not found."@)
    } else if transfer_of(b0.transfers@, transfer_id).status@ != "pending"@ {
        same_tables(b0, b1) && says(r, "This transfer is not pending anymore."@)
    } else if !account_exists(b0.accounts@, transfer_of(b0.transfers@, transfer_id).from_account) {
        same_tables(b0, b1) && says(r, "Source account not found."@)
    } else if account_of(b0.accounts@, transfer_of(b0.transfers@, transfer_id).from_account).balance
        < transfer_of(b0.transfers@, transfer_id).amount {
        same_tables(b0, b1) && says(r,
            "Cannot approve transfer because the source account has insufficient funds."@)
    } else if has_room(b0.transactions@, 2) && has_room(b0.audit_log@, 1) {
        let t = transfer_of(b0.transfers@, transfer_id);
        &&& b1.users@ == b0.users@
        &&& b1.accounts@ == move_funds(b0.accounts@, t.from_account, t.to_account, t.amount as int)
        &&& transfer_completed(b0.transfers@, b1.transfers@, transfer_id, user.user_id)
        &&& movement_recorded(b0.transactions@, b1.transactions@, t.from_account, t.to_account, t.amount,
            with_account("Approved transfer to account "@, t.to_account),
            with_account("Approved transfer from account "@, t.from_account), created_at)
        &&& appended_entry(b0.audit_log@, b1.audit_log@, Some(user.user_id), "TRANSFER_APPROVED"@,
            approved_details(user, t.transfer_id), created_at)
        &&& says(r, "Transfer approved and completed."@)
    } else {
        same_tables(b0, b1) && r == Err::<String, StoreError>(StoreError::KeysExhausted)
    }
}

/// The role is one the users table admits.
pub open spec fn known_role(user: User) -> bool {
    user.role@ == "customer"@ || user.role@ == "teller"@ || user.role@ == "manager"@
        || user.role@ == "auditor"@
}

/// The account belongs to the user.
pub open spec fn owned_by(user_id: i32) -> spec_fn(Account) -> bool {
    |a: Account| a.user_id == user_id
}

/// The history row belongs to the account.
pub open spec fn of_account(account_id: i32) -> spec_fn(TransactionRecord) -> bool {
    |x: TransactionRecord| x.account_id == account_id
}

/// The transfer waits for approval.
pub open spec fn is_pending() -> spec_fn(Transfer) -> bool {
    |t: Transfer| t.status@ == "pending"@
}

/// The accounts a user is shown: a customer their own, everybody else all.
pub open spec fn accessible_accounts(bank: Bank, user: User) -> Seq<Account> {
    if user.role@ == "customer"@ {
        bank.accounts@.filter(owned_by(user.user_id))
    } else {
        bank.accounts@
    }
}

/// The history of an account, newest first, as `user` is shown it: empty
/// where the account does not exist or the user may not see it.
pub open spec fn visible_history(bank: Bank, user: User, account_id: i32) -> Seq<TransactionRecord> {
    if account_exists(bank.accounts@, account_id) && spec_can_view_account(
        user,
        account_of(bank.accounts@, account_id).user_id,
    ) {
        bank.transactions@.filter(of_account(account_id)).reverse()
    } else {
        seq![]
    }
}

/// The pending transfers, newest first.
pub open spec fn pending_transfers(bank: Bank) -> Seq<Transfer> {
    bank.transfers@.filter(is_pending()).reverse()
}

// ---------------------------------------------------------------------
// Writing rows
// ---------------------------------------------------------------------

fn push_transfer(
    transfers: &mut Vec<Transfer>,
    from_account: i32,
    to_account: i32,
    amount: i64,
    status: &str,
    requested_by: i32,
    approved_by: Option<i32>,
    created_at: &str,
)
    requires
        keys_increasing(old(transfers)@),
        has_room(old(transfers)@, 1),
    ensures
        keys_increasing(final(transfers)@),
        transfer_appended(old(transfers)@, final(transfers)@, from_account, to_account, amount,
            status@, requested_by, approved_by, created_at@),
{
    let transfer_id = match next_key_of(transfers) {
        Some(k) => k,
        None => { return; },
    };
    let row = Transfer {
        transfer_id,
        from_account,
        to_account,
        amount,
        status: String::from_str(status),
        requested_by,
        approved_by,
        created_at: String::from_str(created_at),
    };
    let ghost t0 = transfers@;
    transfers.push(row);
    proof {
        lemma_push_keeps_increasing(t0, row);
        assert(transfers@.drop_last() =~= t0);
    }
}

fn push_movement(
    transactions: &mut Vec<TransactionRecord>,
    from_account: i32,
    to_account: i32,
    amount: i64,
    debit_description: String,
    credit_description: String,
    created_at: &str,
)
    requires
        keys_increasing(old(transactions)@),
        has_room(old(transactions)@, 2),
    ensures
        keys_increasing(final(transactions)@),
        movement_recorded(old(transactions)@, final(transactions)@, from_account, to_account,
            amount, debit_description@, credit_description@, created_at@),
{
    let ghost x0 = transactions@;
    let debit_id = match next_key_of(transactions) {
        Some(k) => k,
        None => { return; },
    };
    let debit = TransactionRecord {
        transaction_id: debit_id,
        account_id: from_account,
        tx_type: String::from_str("debit"),
        amount,
        description: debit_description,
        created_at: String::from_str(created_at),
    };
    transactions.push(debit);
    proof {
        lemma_push_keeps_increasing(x0, debit);
    }
    let ghost x1 = transactions@;
    let credit = TransactionRecord {
        transaction_id: debit_id + 1,
        account_id: to_account,
        tx_type: String::from_str("credit"),
        amount,
        description: credit_description,
        created_at: String::from_str(created_at),
    };
    transactions.push(credit);
    proof {
        lemma_push_keeps_increasing(x1, credit);
        assert(transactions@.subrange(0, x0.len() as int) =~= x0);
        assert(transactions@[x0.len() as int] == debit);
    }
}

/// Moves `amount` from the account at `fi` (with id `from`) to the account
/// with id `to`.
fn move_money(accounts: &mut Vec<Account>, fi: usize, from: i32, to: i32, amount: i64)
    requires
        keys_increasing(old(accounts)@),
        fi < old(accounts)@.len(),
        old(accounts)@[fi as int].account_id == from,
        account_exists(old(accounts)@, to),
        0 < amount <= old(accounts)@[fi as int].balance,
        funds_total(old(accounts)@) <= i64::MAX,
    ensures
        final(accounts)@ == move_funds(old(accounts)@, from, to, amount as int),
        keys_increasing(final(accounts)@),
        funds_total(final(accounts)@) <= i64::MAX,
        total_balance(final(accounts)@) == total_balance(old(accounts)@),
        forall|k: i32| #[trigger] account_exists(final(accounts)@, k) <==> account_exists(old(accounts)@, k),
{
    let ghost s = accounts@;
    proof {
        lemma_account_index(s, from, fi as int);
        lemma_move_funds_bounded(s, from, to, amount as int);
        crate::store::lemma_adjust(s, from, -amount);
    }
    let fb = accounts[fi].balance;
    set_balance(accounts, fi, fb - amount);
    assert(accounts@ == crate::store::adjust(s, from, -amount));
    let ti = match find_account(accounts, to) {
        Some(i) => i,
        None => { return; },
    };
    let tb = accounts[ti].balance;
    proof {
        if from != to {
            assert(ti as int == account_index(s, to));
            assert(accounts@[ti as int] == s[ti as int]);
        } else {
            assert(ti == fi);
        }
    }
    set_balance(accounts, ti, tb + amount);
}

// ---------------------------------------------------------------------
// Transfers
// ---------------------------------------------------------------------

/// Moves `amount` cents from `from_account` to `to_account` on behalf of
/// `current_user`, recording the time `created_at`. Below the approval
/// threshold the money moves at once, with a completed transfer, a debit
/// and a credit row and an audit entry; from the threshold on a pending
/// transfer and an audit entry are recorded and no money moves. Refusals
/// are answered with a message; refusals for access or funds are audited.
pub fn transfer_money_at(
    bank: &mut Bank,
    current_user: &User,
    from_account: i32,
    to_account: i32,
    amount: i64,
    created_at: &str,
) -> (r: Result<String, StoreError>)
    requires
        old(bank).wf(),
    ensures
        final(bank).wf(),
        transfer_money_post(*old(bank), *final(bank), *current_user, from_account, to_account, amount, created_at@, r),
        total_balance(final(bank).accounts@) == total_balance(old(bank).accounts@),
        chain_valid(old(bank).audit_log@) ==> chain_valid(final(bank).audit_log@),
{
    if amount <= 0 {
        return Ok(String::from_str("Amount must be greater than zero."));
    }
    if from_account == to_account {
        return Ok(String::from_str("Source and destination accounts must be different."));
    }
    let fi = match find_account(&bank.accounts, from_account) {
        Some(i) => i,
        None => { return Ok(String::from_str("Source account not found.")); },
    };
    if find_account(&bank.accounts, to_account).is_none() {
        return Ok(String::from_str("Destination account not found."));
    }
    let owner = bank.accounts[fi].user_id;
    if !can_initiate_transfer(current_user, owner) {
        let details = text_user_id("User ", current_user, " tried transfer from account ", from_account);
        return match log_action_at(bank, Some(current_user.user_id), "TRANSFER_DENIED", details.as_str(), created_at) {
            Ok(()) => Ok(String::from_str("Access denied for this transfer.")),
            Err(e) => Err(e),
        };
    }
    let balance = bank.accounts[fi].balance;
    if balance < amount {
        let details = text_with_id("Insufficient funds in account ", from_account);
        return match log_action_at(bank, Some(current_user.user_id), "TRANSFER_FAILED", details.as_str(), created_at) {
            Ok(()) => Ok(String::from_str("Insufficient funds.")),
            Err(e) => Err(e),
        };
    }
    if amount >= APPROVAL_THRESHOLD {
        if !room_for(&bank.transfers, 1) || !room_for(&bank.audit_log, 1) {
            return Err(StoreError::KeysExhausted);
        }
        let ghost b0 = *bank;
        push_transfer(&mut bank.transfers, from_account, to_account, amount, "pending",
            current_user.user_id, None, created_at);
        let details = movement_text("Pending transfer created: from ", from_account, to_account, amount);
        let logged = log_action_at(bank, Some(current_user.user_id), "TRANSFER_PENDING", details.as_str(), created_at);
        proof {
            assert forall|i: int| 0 <= i < bank.transfers@.len() implies {
                &&& #[trigger] bank.transfers@[i].amount > 0
                &&& account_exists(bank.accounts@, bank.transfers@[i].from_account)
                &&& account_exists(bank.accounts@, bank.transfers@[i].to_account)
            } by {
                if i < b0.transfers@.len() {
                    assert(bank.transfers@[i] == b0.transfers@[i]);
                }
            }
        }
        return match logged {
            Ok(()) => Ok(String::from_str("Transfer submitted. Awaiting manager approval.")),
            Err(e) => Err(e),
        };
    }
    if !room_for(&bank.transfers, 1) || !room_for(&bank.transactions, 2) || !room_for(&bank.audit_log, 1) {
        return Err(StoreError::KeysExhausted);
    }
    let ghost b0 = *bank;
    move_money(&mut bank.accounts, fi, from_account, to_account, amount);
    push_transfer(&mut bank.transfers, from_account, to_account, amount, "completed",
        current_user.user_id, Some(current_user.user_id), created_at);
    let debit_description = text_with_id("Transfer to account ", to_account);
    let credit_description = text_with_id("Transfer from account ", from_account);
    push_movement(&mut bank.transactions, from_account, to_account, amount, debit_description,
        credit_description, created_at);
    let details = movement_text("Transfer completed: from ", from_account, to_account, amount);
    let logged = log_action_at(bank, Some(current_user.user_id), "TRANSFER_COMPLETED", details.as_str(), created_at);
    proof {
        assert forall|i: int| 0 <= i < bank.transfers@.len() implies {
            &&& #[trigger] bank.transfers@[i].amount > 0
            &&& account_exists(bank.accounts@, bank.transfers@[i].from_account)
            &&& account_exists(bank.accounts@, bank.transfers@[i].to_account)
        } by {
            if i < b0.transfers@.len() {
                assert(bank.transfers@[i] == b0.transfers@[i]);
                assert(b0.transfers@[i].amount > 0);
                assert(account_exists(b0.accounts@, b0.transfers@[i].from_account));
                assert(account_exists(b0.accounts@, b0.transfers@[i].to_account));
            }
        }
    }
    match logged {
        Ok(()) => Ok(String::from_str("Transfer completed successfully.")),
        Err(e) => Err(e),
    }
}

/// Whether `transfer_money` needs the time: only a request that passes the
/// checks on the amount and on the two accounts reaches a step that writes.
pub open spec fn transfer_needs_time(b0: Bank, from_account: i32, to_account: i32, amount: i64) -> bool {
    &&& amount > 0
    &&& from_account != to_account
    &&& account_exists(b0.accounts@, from_account)
    &&& account_exists(b0.accounts@, to_account)
}

/// What `transfer_money` does. A request refused on its amount or accounts
/// is answered as `transfer_money_at` answers it, whatever the time. Any
/// other request needs the time: where the clock gives none, nothing is
/// written and the call fails; otherwise it does what `transfer_money_at`
/// does for a time the clock gave.
pub open spec fn transfer_money_outcome(
    b0: Bank,
    b1: Bank,
    user: User,
    from_account: i32,
    to_account: i32,
    amount: i64,
    r: Result<String, StoreError>,
) -> bool {
    if transfer_needs_time(b0, from_account, to_account, amount) {
        ||| r == Err::<String, StoreError>(StoreError::ClockUnavailable) && same_tables(b0, b1)
        ||| exists|created_at: Seq<char>|
            is_timestamp_text(created_at) && #[trigger] transfer_money_post(b0, b1, user, from_account,
                to_account, amount, created_at, r)
    } else {
        transfer_money_post(b0, b1, user, from_account, to_account, amount, Seq::empty(), r)
    }
}

/// Moves `amount` cents from `from_account` to `to_account` on behalf of
/// `current_user`, as `transfer_money_at` does for the current time. The
/// clock is read only once the amount and both accounts have passed their
/// checks.
pub fn transfer_money(
    bank: &mut Bank,
    current_user: &User,
    from_account: i32,
    to_account: i32,
    amount: i64,
) -> (r: Result<String, StoreError>)
    requires
        old(bank).wf(),
    ensures
        final(bank).wf(),
        transfer_money_outcome(*old(bank), *final(bank), *current_user, from_account, to_account, amount, r),
        r == Err::<String, StoreError>(StoreError::ClockUnavailable) ==> transfer_needs_time(*old(bank),
            from_account, to_account, amount),
        total_balance(final(bank).accounts@) == total_balance(old(bank).accounts@),
        chain_valid(old(bank).audit_log@) ==> chain_valid(final(bank).audit_log@),
{
    if amount <= 0 || from_account == to_account || find_account(&bank.accounts, from_account).is_none()
        || find_account(&bank.accounts, to_account).is_none() {
        let r = transfer_money_at(bank, current_user, from_account, to_account, amount, "");
        assert(transfer_money_post(*old(bank), *bank, *current_user, from_account, to_account, amount,
            Seq::empty(), r));
        return r;
    }
    let created_at = match current_timestamp() {
        Some(t) => t,
        None => { return Err(StoreError::ClockUnavailable); },
    };
    let r = transfer_money_at(bank, current_user, from_account, to_account, amount, created_at.as_str());
    assert(transfer_money_post(*old(bank), *bank, *current_user, from_account, to_account, amount, created_at@, r));
    r
}

/// Marks the transfer at position `i` completed, approved by `approver`.
fn complete_transfer(transfers: &mut Vec<Transfer>, i: usize, approver: i32)
    requires
        i < old(transfers)@.len(),
        keys_increasing(old(transfers)@),
    ensures
        keys_increasing(final(transfers)@),
        final(transfers)@ == old(transfers)@.update(i as int, final(transfers)@[i as int]),
        transfer_row_is(final(transfers)@[i as int], old(transfers)@[i as int].transfer_id as int,
            old(transfers)@[i as int].from_account, old(transfers)@[i as int].to_account,
            old(transfers)@[i as int].amount, "completed"@, old(transfers)@[i as int].requested_by,
            Some(approver), old(transfers)@[i as int].created_at@),
{
    let t = transfers[i].duplicate();
    let row = Transfer {
        transfer_id: t.transfer_id,
        from_account: t.from_account,
        to_account: t.to_account,
        amount: t.amount,
        status: String::from_str("completed"),
        requested_by: t.requested_by,
        approved_by: Some(approver),
        created_at: t.created_at,
    };
    let ghost t0 = transfers@;
    transfers.set(i, row);
    proof {
        lemma_update_keeps_increasing(t0, i as int, row);
    }
}

/// Approves the pending transfer `transfer_id` on behalf of `current_user`,
/// recording the time `created_at`: the money moves, the transfer becomes
/// completed and approved by the user, a debit and a credit row and an audit
/// entry are recorded. Only managers approve; a refusal of any other user is
/// audited. Other refusals are answered with a message and change nothing.
pub fn approve_transfer_at(
    bank: &mut Bank,
    current_user: &User,
    transfer_id: i32,
    created_at: &str,
) -> (r: Result<String, StoreError>)
    requires
        old(bank).wf(),
    ensures
        final(bank).wf(),
        approve_transfer_post(*old(bank), *final(bank), *current_user, transfer_id, created_at@, r),
        total_balance(final(bank).accounts@) == total_balance(old(bank).accounts@),
        chain_valid(old(bank).audit_log@) ==> chain_valid(final(bank).audit_log@),
{
    if !can_approve_transfer(current_user) {
        let details = text_user_id("User ", current_user, " tried approving transfer ", transfer_id);
        return match log_action_at(bank, Some(current_user.user_id), "APPROVAL_DENIED", details.as_str(), created_at) {
            Ok(()) => Ok(String::from_str("Only managers can approve transfers.")),
            Err(e) => Err(e),
        };
    }
    let ti = match find_key(&bank.transfers, transfer_id) {
        Some(i) => i,
        None => { return Ok(String::from_str("Transfer not found.")); },
    };
    let t = bank.transfers[ti].duplicate();
    if !str_eq(t.status.as_str(), "pending") {
        return Ok(String::from_str("This transfer is not pending anymore."));
    }
    let fi = match find_account(&bank.accounts, t.from_account) {
        Some(i) => i,
        None => { return Ok(String::from_str("Source account not found.")); },
    };
    if bank.accounts[fi].balance < t.amount {
        return Ok(String::from_str(
            "Cannot approve transfer because the source account has insufficient funds.",
        ));
    }
    if !room_for(&bank.transactions, 2) || !room_for(&bank.audit_log, 1) {
        return Err(StoreError::KeysExhausted);
    }
    let ghost b0 = *bank;
    proof {
        assert(b0.transfers@[ti as int].amount > 0);
    }
    move_money(&mut bank.accounts, fi, t.from_account, t.to_account, t.amount);
    complete_transfer(&mut bank.transfers, ti, current_user.user_id);
    let debit_description = text_with_id("Approved transfer to account ", t.to_account);
    let credit_description = text_with_id("Approved transfer from account ", t.from_account);
    push_movement(&mut bank.transactions, t.from_account, t.to_account, t.amount, debit_description,
        credit_description, created_at);
    let details = approved_text(current_user, t.transfer_id);
    let logged = log_action_at(bank, Some(current_user.user_id), "TRANSFER_APPROVED", details.as_str(), created_at);
    proof {
        assert forall|j: int| 0 <= j < b0.transfers@.len() && j != ti implies #[trigger] bank.transfers@[j]
            == b0.transfers@[j] by {
            assert(bank.transfers@[j] == b0.transfers@.update(ti as int, bank.transfers@[ti as int])[j]);
        }
        assert forall|i: int| 0 <= i < bank.transfers@.len() implies {
            &&& #[trigger] bank.transfers@[i].amount > 0
            &&& account_exists(bank.accounts@, bank.transfers@[i].from_account)
            &&& account_exists(bank.accounts@, bank.transfers@[i].to_account)
        } by {
            assert(b0.transfers@[i].amount > 0);
            assert(account_exists(b0.accounts@, b0.transfers@[i].from_account));
            assert(account_exists(b0.accounts@, b0.transfers@[i].to_account));
            if i != ti {
                assert(bank.transfers@[i] == b0.transfers@[i]);
            }
        }
    }
    match logged {
        Ok(()) => Ok(String::from_str("Transfer approved and completed.")),
        Err(e) => Err(e),
    }
}

/// Whether `approve_transfer` needs the time: a refusal of a user who is no
/// manager is audited, and so is an approval that passes every check. The
/// other refusals of a manager write nothing.
pub open spec fn approval_needs_time(b0: Bank, user: User, transfer_id: i32) -> bool {
    ||| !spec_can_approve_transfer(user)
    ||| {
        let t = transfer_of(b0.transfers@, transfer_id);
        &&& key_exists(b0.transfers@, transfer_id)
        &&& t.status@ == "pending"@
        &&& account_exists(b0.accounts@, t.from_account)
        &&& account_of(b0.accounts@, t.from_account).balance >= t.amount
    }
}

/// What `approve_transfer` does. A manager's request that is refused
/// without being audited is answered as `approve_transfer_at` answers it,
/// whatever the time. Any other request needs the time: where the clock
/// gives none, nothing is written and the call fails; otherwise it does what
/// `approve_transfer_at` does for a time the clock gave.
pub open spec fn approve_transfer_outcome(
    b0: Bank,
    b1: Bank,
    user: User,
    transfer_id: i32,
    r: Result<String, StoreError>,
) -> bool {
    if approval_needs_time(b0, user, transfer_id) {
        ||| r == Err::<String, StoreError>(StoreError::ClockUnavailable) && same_tables(b0, b1)
        ||| exists|created_at: Seq<char>|
            is_timestamp_text(created_at) && #[trigger] approve_transfer_post(b0, b1, user, transfer_id,
                created_at, r)
    } else {
        approve_transfer_post(b0, b1, user, transfer_id, Seq::empty(), r)
    }
}

/// Approves the pending transfer `transfer_id` on behalf of `current_user`,
/// as `approve_transfer_at` does for the current time. For a manager the
/// clock is read only once the transfer and its source account have passed
/// their checks.
pub fn approve_transfer(bank: &mut Bank, current_user: &User, transfer_id: i32) -> (r: Result<String, StoreError>)
    requires
        old(bank).wf(),
    ensures
        final(bank).wf(),
        approve_transfer_outcome(*old(bank), *final(bank), *current_user, transfer_id, r),
        r == Err::<String, StoreError>(StoreError::ClockUnavailable) ==> approval_needs_time(*old(bank),
            *current_user, transfer_id),
        total_balance(final(bank).accounts@) == total_balance(old(bank).accounts@),
        chain_valid(old(bank).audit_log@) ==> chain_valid(final(bank).audit_log@),
{
    if can_approve_transfer(current_user) && !approval_checks_pass(bank, transfer_id) {
        let r = approve_transfer_at(bank, current_user, transfer_id, "");
        assert(approve_transfer_post(*old(bank), *bank, *current_user, transfer_id, Seq::empty(), r));
        return r;
    }
    let created_at = match current_timestamp() {
        Some(t) => t,
        None => { return Err(StoreError::ClockUnavailable); },
    };
    let r = approve_transfer_at(bank, current_user, transfer_id, created_at.as_str());
    assert(approve_transfer_post(*old(bank), *bank, *current_user, transfer_id, created_at@, r));
    r
}

/// Whether the transfer exists, is pending, and its source account exists
/// and holds the amount.
fn approval_checks_pass(bank: &Bank, transfer_id: i32) -> (r: bool)
    requires
        bank.wf(),
    ensures
        r == {
            let t = transfer_of(bank.transfers@, transfer_id);
            &&& key_exists(bank.transfers@, transfer_id)
            &&& t.status@ == "pending"@
            &&& account_exists(bank.accounts@, t.from_account)
            &&& account_of(bank.accounts@, t.from_account).balance >= t.amount
        },
{
    let ti = match find_key(&bank.transfers, transfer_id) {
        Some(i) => i,
        None => { return false; },
    };
    let t = &bank.transfers[ti];
    if !str_eq(t.status.as_str(), "pending") {
        return false;
    }
    match find_account(&bank.accounts, t.from_account) {
        Some(fi) => bank.accounts[fi].balance >= t.amount,
        None => false,
    }
}

// ---------------------------------------------------------------------
// Laws
// ---------------------------------------------------------------------

/// The answers of `transfer_money` are pairwise different texts.
proof fn lemma_transfer_answers_distinct()
    ensures
        "Transfer submitted. Awaiting manager approval."@ != "Transfer completed successfully."@,
        "Amount must be greater than zero."@ != "Transfer submitted. Awaiting manager approval."@,
        "Amount must be greater than zero."@ != "Transfer completed successfully."@,
        "Source and destination accounts must be different."@ != "Transfer submitted. Awaiting manager approval."@,
        "Source and destination accounts must be different."@ != "Transfer completed successfully."@,
        "Source account not found."@ != "Transfer submitted. Awaiting manager approval."@,
        "Source account not found."@ != "Transfer completed successfully."@,
        "Destination account not found."@ != "Transfer submitted. Awaiting manager approval."@,
        "Destination account not found."@ != "Transfer completed successfully."@,
        "Access denied for this transfer."@ != "Transfer submitted. Awaiting manager approval."@,
        "Access denied for this transfer."@ != "Transfer completed successfully."@,
        "Insufficient funds."@ != "Transfer submitted. Awaiting manager approval."@,
        "Insufficient funds."@ != "Transfer completed successfully."@,
{
    reveal_strlit("Transfer submitted. Awaiting manager approval.");
    reveal_strlit("Transfer completed successfully.");
    reveal_strlit("Amount must be greater than zero.");
    reveal_strlit("Source and destination accounts must be different.");
    reveal_strlit("Source account not found.");
    reveal_strlit("Destination account not found.");
    reveal_strlit("Access denied for this transfer.");
    reveal_strlit("Insufficient funds.");
    assert("Transfer submitted. Awaiting manager approval."@.len() == 46);
    assert("Transfer completed successfully."@.len() == 32);
    assert("Amount must be greater than zero."@.len() == 33);
    assert("Source and destination accounts must be different."@.len() == 50);
    assert("Source account not found."@.len() == 25);
    assert("Destination account not found."@.len() == 30);
    assert("Access denied for this transfer."@.len() == 32);
    assert("Insufficient funds."@.len() == 19);
    assert("Access denied for this transfer."@[0] != "Transfer completed successfully."@[0]);
}

/// A transfer is recorded exactly when the answer is that it was submitted
/// for approval or that it completed.
pub proof fn lemma_recorded_iff_answered(
    b0: Bank,
    b1: Bank,
    user: User,
    from_account: i32,
    to_account: i32,
    amount: i64,
    created_at: Seq<char>,
    r: Result<String, StoreError>,
)
    requires
        transfer_money_post(b0, b1, user, from_account, to_account, amount, created_at, r),
    ensures
        (b1.transfers@.len() > b0.transfers@.len()) <==> (says(r, "Transfer submitted. Awaiting manager approval."@)
            || says(r, "Transfer completed successfully."@)),
{
    lemma_transfer_answers_distinct();
}

/// A transfer keeps the total balance of the bank.
pub proof fn lemma_transfer_keeps_total(
    b0: Bank,
    b1: Bank,
    user: User,
    from_account: i32,
    to_account: i32,
    amount: i64,
    created_at: Seq<char>,
    r: Result<String, StoreError>,
)
    requires
        b0.wf(),
        transfer_money_post(b0, b1, user, from_account, to_account, amount, created_at, r),
    ensures
        total_balance(b1.accounts@) == total_balance(b0.accounts@),
{
    if b1.accounts@ != b0.accounts@ {
        lemma_move_funds_bounded(b0.accounts@, from_account, to_account, amount as int);
    }
}

/// Money moves only on a transfer below the approval threshold, asked by a
/// user allowed to move money out of the source, which holds the amount:
/// then exactly the amount leaves the source and reaches the destination.
pub proof fn lemma_money_moves_only_when_allowed(
    b0: Bank,
    b1: Bank,
    user: User,
    from_account: i32,
    to_account: i32,
    amount: i64,
    created_at: Seq<char>,
    r: Result<String, StoreError>,
)
    requires
        b0.wf(),
        transfer_money_post(b0, b1, user, from_account, to_account, amount, created_at, r),
        b1.accounts@ != b0.accounts@,
    ensures
        0 < amount < APPROVAL_THRESHOLD,
        from_account != to_account,
        spec_can_initiate_transfer(user, account_of(b0.accounts@, from_account).user_id),
        account_of(b0.accounts@, from_account).balance >= amount,
        b1.accounts@ == move_funds(b0.accounts@, from_account, to_account, amount as int),
        says(r, "Transfer completed successfully."@),
{
}

/// A transfer below the approval threshold, asked by a user allowed to move
/// money out of a source that holds the amount, completes at once where the
/// tables have room.
pub proof fn lemma_small_transfer_completes(
    b0: Bank,
    b1: Bank,
    user: User,
    from_account: i32,
    to_account: i32,
    amount: i64,
    created_at: Seq<char>,
    r: Result<String, StoreError>,
)
    requires
        b0.wf(),
        transfer_money_post(b0, b1, user, from_account, to_account, amount, created_at, r),
        0 < amount < APPROVAL_THRESHOLD,
        from_account != to_account,
        account_exists(b0.accounts@, from_account),
        account_exists(b0.accounts@, to_account),
        spec_can_initiate_transfer(user, account_of(b0.accounts@, from_account).user_id),
        account_of(b0.accounts@, from_account).balance >= amount,
        has_room(b0.transfers@, 1),
        has_room(b0.transactions@, 2),
        has_room(b0.audit_log@, 1),
    ensures
        says(r, "Transfer completed successfully."@),
        b1.accounts@ == move_funds(b0.accounts@, from_account, to_account, amount as int),
        b1.transfers@.last().status@ == "completed"@,
{
}

/// A transfer of the approval threshold or more moves no money.
pub proof fn lemma_large_transfer_waits(
    b0: Bank,
    b1: Bank,
    user: User,
    from_account: i32,
    to_account: i32,
    amount: i64,
    created_at: Seq<char>,
    r: Result<String, StoreError>,
)
    requires
        b0.wf(),
        transfer_money_post(b0, b1, user, from_account, to_account, amount, created_at, r),
        amount >= APPROVAL_THRESHOLD,
    ensures
        b1.accounts@ == b0.accounts@,
{
}

/// An approval keeps the total balance of the bank.
pub proof fn lemma_approval_keeps_total(
    b0: Bank,
    b1: Bank,
    user: User,
    transfer_id: i32,
    created_at: Seq<char>,
    r: Result<String, StoreError>,
)
    requires
        b0.wf(),
        approve_transfer_post(b0, b1, user, transfer_id, created_at, r),
    ensures
        total_balance(b1.accounts@) == total_balance(b0.accounts@),
{
    if b1.accounts@ != b0.accounts@ {
        let t = transfer_of(b0.transfers@, transfer_id);
        let i = key_index(b0.transfers@, transfer_id);
        assert(b0.transfers@[i].amount > 0);
        lemma_move_funds_bounded(b0.accounts@, t.from_account, t.to_account, t.amount as int);
    }
}

/// A user who is not a manager changes neither balances nor transfers by
/// asking for an approval.
pub proof fn lemma_only_managers_approve(
    b0: Bank,
    b1: Bank,
    user: User,
    transfer_id: i32,
    created_at: Seq<char>,
    r: Result<String, StoreError>,
)
    requires
        approve_transfer_post(b0, b1, user, transfer_id, created_at, r),
        !spec_can_approve_transfer(user),
    ensures
        b1.accounts@ == b0.accounts@,
        b1.transfers@ == b0.transfers@,
        b1.transactions@ == b0.transactions@,
{
}

/// A transfer of the approval threshold or more that was recorded as
/// pending, once a manager approves it while the log and history have room,
/// moves exactly what a direct transfer would have moved.
pub proof fn lemma_pending_then_approved(
    b0: Bank,
    b1: Bank,
    b2: Bank,
    user: User,
    manager: User,
    from_account: i32,
    to_account: i32,
    amount: i64,
    created_at: Seq<char>,
    approved_at: Seq<char>,
    r1: Result<String, StoreError>,
    r2: Result<String, StoreError>,
)
    requires
        b0.wf(),
        b1.wf(),
        amount >= APPROVAL_THRESHOLD,
        transfer_money_post(b0, b1, user, from_account, to_account, amount, created_at, r1),
        b1.transfers@.len() > b0.transfers@.len(),
        spec_can_approve_transfer(manager),
        approve_transfer_post(b1, b2, manager, next_key(b0.transfers@) as i32, approved_at, r2),
        has_room(b1.transactions@, 2),
        has_room(b1.audit_log@, 1),
    ensures
        says(r1, "Transfer submitted. Awaiting manager approval."@),
        says(r2, "Transfer approved and completed."@),
        b2.accounts@ == move_funds(b0.accounts@, from_account, to_account, amount as int),
{
    let k = next_key(b0.transfers@) as i32;
    let n = b0.transfers@.len() as int;
    assert(b1.transfers@[n] == b1.transfers@.last());
    assert(b1.transfers@[n].transfer_id == k);
    assert(key_exists(b1.transfers@, k));
    crate::table::lemma_key_unique(b1.transfers@, n, key_index(b1.transfers@, k));
    assert(transfer_of(b1.transfers@, k) == b1.transfers@[n]);
}

/// A completed approval cannot be repeated: asking again answers that the
/// transfer is no longer pending and changes nothing.
pub proof fn lemma_approval_happens_once(
    b0: Bank,
    b1: Bank,
    b2: Bank,
    manager: User,
    other: User,
    transfer_id: i32,
    approved_at: Seq<char>,
    again_at: Seq<char>,
    r1: Result<String, StoreError>,
    r2: Result<String, StoreError>,
)
    requires
        b0.wf(),
        b1.wf(),
        approve_transfer_post(b0, b1, manager, transfer_id, approved_at, r1),
        b1.transactions@.len() > b0.transactions@.len(),
        spec_can_approve_transfer(other),
        approve_transfer_post(b1, b2, other, transfer_id, again_at, r2),
    ensures
        says(r1, "Transfer approved and completed."@),
        says(r2, "This transfer is not pending anymore."@),
        same_tables(b1, b2),
{
    let i = key_index(b0.transfers@, transfer_id);
    assert(b1.transfers@[i].transfer_id == transfer_id);
    assert(b1.transfers@[i].key_of() == transfer_id);
    assert(key_exists(b1.transfers@, transfer_id));
    crate::table::lemma_key_unique(b1.transfers@, i, key_index(b1.transfers@, transfer_id));
    reveal_strlit("completed");
    reveal_strlit("pending");
    assert("completed"@.len() != "pending"@.len());
}

/// A transfer recorded as pending is the first of the pending transfers
/// listed afterwards.
pub proof fn lemma_pending_transfer_listed(
    b0: Bank,
    b1: Bank,
    user: User,
    from_account: i32,
    to_account: i32,
    amount: i64,
    created_at: Seq<char>,
    r: Result<String, StoreError>,
)
    requires
        b0.wf(),
        amount >= APPROVAL_THRESHOLD,
        transfer_money_post(b0, b1, user, from_account, to_account, amount, created_at, r),
        b1.transfers@.len() > b0.transfers@.len(),
    ensures
        pending_transfers(b1).len() >= 1,
        pending_transfers(b1)[0] == b1.transfers@.last(),
        transfer_row_is(pending_transfers(b1)[0], next_key(b0.transfers@), from_account, to_account, amount,
            "pending"@, user.user_id, None, created_at),
{
    let t1 = b1.transfers@;
    assert(t1 == t1.drop_last().push(t1.last()));
    reveal(Seq::filter);
    assert(is_pending()(t1.last()));
    assert(t1.filter(is_pending()) == t1.drop_last().filter(is_pending()).push(t1.last()));
}

/// Once approved, a transfer is no longer among the pending transfers.
pub proof fn lemma_approved_transfer_unlisted(
    b0: Bank,
    b1: Bank,
    manager: User,
    transfer_id: i32,
    created_at: Seq<char>,
    r: Result<String, StoreError>,
)
    requires
        b0.wf(),
        b1.wf(),
        approve_transfer_post(b0, b1, manager, transfer_id, created_at, r),
        b1.transactions@.len() > b0.transactions@.len(),
    ensures
        forall|j: int| 0 <= j < pending_transfers(b1).len() ==> (#[trigger] pending_transfers(b1)[j]).transfer_id != transfer_id,
{
    broadcast use Seq::lemma_filter_pred, Seq::lemma_filter_contains_rev;
    let i = key_index(b0.transfers@, transfer_id);
    let f = b1.transfers@.filter(is_pending());
    reveal_strlit("completed");
    reveal_strlit("pending");
    assert("completed"@.len() != "pending"@.len());
    assert forall|j: int| 0 <= j < pending_transfers(b1).len() implies (#[trigger] pending_transfers(b1)[j]).transfer_id != transfer_id by {
        let x = pending_transfers(b1)[j];
        assert(x == f[f.len() - 1 - j]);
        assert(is_pending()(x));
        assert(f.contains(x));
        assert(b1.transfers@.contains(x));
        let k = choose|k: int| 0 <= k < b1.transfers@.len() && b1.transfers@[k] == x;
        if x.transfer_id == transfer_id {
            assert(b1.transfers@[i].key_of() == transfer_id);
            assert(b1.transfers@[k].key_of() == transfer_id);
            crate::table::lemma_key_unique(b1.transfers@, i, k);
        }
    }
}

// ---------------------------------------------------------------------
// Reading
// ---------------------------------------------------------------------

/// What a user is shown of the accounts: a customer every account of
/// their own and no other; anybody else every account. The accounts shown
/// are accounts of the bank, in the order of their ids.
pub proof fn lemma_accessible_accounts_are_exactly_the_allowed_ones(bank: Bank, user: User)
    ensures
        ({
            let shown = accessible_accounts(bank, user);
            &&& user.role@ == "customer"@ ==> forall|j: int| 0 <= j < bank.accounts@.len() ==> (
                #[trigger] shown.contains(bank.accounts@[j]) <==> bank.accounts@[j].user_id == user.user_id)
            &&& user.role@ != "customer"@ ==> shown == bank.accounts@
            &&& forall|i: int| 0 <= i < shown.len() ==> bank.accounts@.contains(#[trigger] shown[i])
            &&& keys_increasing(bank.accounts@) ==> keys_increasing(shown)
        }),
{
    broadcast use Seq::lemma_filter_pred, Seq::lemma_filter_contains, Seq::lemma_filter_contains_rev;
    let p = owned_by(user.user_id);
    let shown = accessible_accounts(bank, user);
    if user.role@ == "customer"@ {
        assert forall|j: int| 0 <= j < bank.accounts@.len() implies (#[trigger] shown.contains(bank.accounts@[j])
            <==> bank.accounts@[j].user_id == user.user_id) by {
            if shown.contains(bank.accounts@[j]) {
                let i = choose|i: int| 0 <= i < shown.len() && shown[i] == bank.accounts@[j];
                assert(p(shown[i]));
            }
            if bank.accounts@[j].user_id == user.user_id {
                assert(p(bank.accounts@[j]));
            }
        }
        assert forall|i: int| 0 <= i < shown.len() implies bank.accounts@.contains(#[trigger] shown[i]) by {
            assert(shown.contains(shown[i]));
        }
        if keys_increasing(bank.accounts@) {
            lemma_filter_keeps_increasing(bank.accounts@, p);
        }
    } else {
        assert forall|i: int| 0 <= i < shown.len() implies bank.accounts@.contains(#[trigger] shown[i]) by {
            assert(bank.accounts@[i] == shown[i]);
        }
    }
}

/// What a user is shown of an account's history: where the account exists
/// and the user may see it, every row of that account and no other row,
/// each a row of the bank, newest first (ids strictly decreasing); nothing
/// otherwise.
pub proof fn lemma_history_is_every_row_of_the_account(bank: Bank, user: User, account_id: i32)
    ensures
        ({
            let shown = visible_history(bank, user, account_id);
            let allowed = account_exists(bank.accounts@, account_id) && spec_can_view_account(user,
                account_of(bank.accounts@, account_id).user_id);
            &&& allowed ==> forall|j: int| 0 <= j < bank.transactions@.len()
                && bank.transactions@[j].account_id == account_id ==> #[trigger] shown.contains(bank.transactions@[j])
            &&& forall|i: int| 0 <= i < shown.len() ==> (#[trigger] shown[i]).account_id == account_id
                && bank.transactions@.contains(shown[i])
            &&& keys_increasing(bank.transactions@) ==> forall|i: int, k: int| 0 <= i < k < shown.len()
                ==> shown[i].transaction_id > shown[k].transaction_id
            &&& !allowed ==> shown.len() == 0
        }),
{
    broadcast use Seq::lemma_filter_pred, Seq::lemma_filter_contains, Seq::lemma_filter_contains_rev;
    let p = of_account(account_id);
    let f = bank.transactions@.filter(p);
    let shown = visible_history(bank, user, account_id);
    let allowed = account_exists(bank.accounts@, account_id) && spec_can_view_account(user,
        account_of(bank.accounts@, account_id).user_id);
    if allowed {
        assert(shown == f.reverse());
        if keys_increasing(bank.transactions@) {
            lemma_filter_keeps_increasing(bank.transactions@, p);
        }
        assert forall|j: int| 0 <= j < bank.transactions@.len()
            && bank.transactions@[j].account_id == account_id implies #[trigger] shown.contains(bank.transactions@[j]) by {
            assert(p(bank.transactions@[j]));
            assert(f.contains(bank.transactions@[j]));
            let m = choose|m: int| 0 <= m < f.len() && f[m] == bank.transactions@[j];
            assert(shown[f.len() - 1 - m] == f[m]);
        }
        assert forall|i: int| 0 <= i < shown.len() implies (#[trigger] shown[i]).account_id == account_id
            && bank.transactions@.contains(shown[i]) by {
            assert(shown[i] == f[f.len() - 1 - i]);
            assert(f.contains(f[f.len() - 1 - i]));
        }
        assert forall|i: int, k: int| keys_increasing(bank.transactions@) && 0 <= i < k < shown.len() implies
            shown[i].transaction_id > shown[k].transaction_id by {
            assert(shown[i] == f[f.len() - 1 - i]);
            assert(shown[k] == f[f.len() - 1 - k]);
            assert(f[f.len() - 1 - k].key_of() < f[f.len() - 1 - i].key_of());
        }
    }
}

/// The accounts `current_user` is shown, in the order of their ids: a
/// customer's own accounts; every account for any other role.
pub fn get_accessible_accounts(bank: &Bank, current_user: &User) -> (r: Vec<Account>)
    ensures
        r@ == accessible_accounts(*bank, *current_user),
        known_role(*current_user) ==> forall|i: int|
            0 <= i < r@.len() ==> spec_can_view_account(*current_user, #[trigger] r@[i].user_id),
        current_user.role@ == "customer"@ ==> forall|j: int| 0 <= j < bank.accounts@.len() ==> (
            #[trigger] r@.contains(bank.accounts@[j]) <==> bank.accounts@[j].user_id == current_user.user_id),
        current_user.role@ != "customer"@ ==> r@ == bank.accounts@,
{
    proof {
        lemma_accessible_accounts_are_exactly_the_allowed_ones(*bank, *current_user);
    }
    broadcast use Seq::lemma_filter_pred;
    let customer = str_eq(current_user.role.as_str(), "customer");
    let uid = current_user.user_id;
    let ghost pred = owned_by(uid);
    let n = bank.accounts.len();
    let mut r: Vec<Account> = Vec::new();
    let mut i: usize = 0;
    while i < n
        invariant
            n == bank.accounts@.len(),
            i <= n,
            pred == owned_by(uid),
            customer ==> r@ == bank.accounts@.take(i as int).filter(pred),
            !customer ==> r@ == bank.accounts@.take(i as int),
        decreases n - i,
    {
        let a = &bank.accounts[i];
        proof {
            let ghost s = bank.accounts@.take(i + 1);
            assert(s.drop_last() =~= bank.accounts@.take(i as int));
            assert(s.last() == bank.accounts@[i as int]);
            reveal(Seq::filter);
            assert(s.filter(pred) == (if pred(s.last()) {
                s.drop_last().filter(pred).push(s.last())
            } else {
                s.drop_last().filter(pred)
            }));
        }
        if !customer || a.user_id == uid {
            r.push(a.duplicate());
        }
        i = i + 1;
    }
    assert(bank.accounts@.take(n as int) =~= bank.accounts@);
    proof {
        if known_role(*current_user) {
            assert forall|i: int| 0 <= i < r@.len() implies spec_can_view_account(*current_user, #[trigger] r@[i].user_id) by {
                if customer {
                    assert(pred(r@[i]));
                }
            }
        }
    }
    r
}

/// The account with id `account_id`, if there is one.
pub fn get_account_by_id(bank: &Bank, account_id: i32) -> (r: Option<Account>)
    requires
        keys_increasing(bank.accounts@),
    ensures
        r is Some <==> account_exists(bank.accounts@, account_id),
        r matches Some(a) ==> a == account_of(bank.accounts@, account_id),
{
    match find_account(&bank.accounts, account_id) {
        Some(i) => Some(bank.accounts[i].duplicate()),
        None => None,
    }
}

/// The history of account `account_id`, newest first, where `current_user`
/// may see the account; nothing where the account does not exist or the
/// user may not see it.
pub fn get_transaction_history(bank: &Bank, current_user: &User, account_id: i32) -> (r: Vec<TransactionRecord>)
    requires
        keys_increasing(bank.accounts@),
    ensures
        r@ == visible_history(*bank, *current_user, account_id),
        account_exists(bank.accounts@, account_id) && spec_can_view_account(*current_user,
            account_of(bank.accounts@, account_id).user_id) ==> forall|j: int| 0 <= j < bank.transactions@.len()
            && bank.transactions@[j].account_id == account_id ==> #[trigger] r@.contains(bank.transactions@[j]),
        keys_increasing(bank.transactions@) ==> forall|i: int, k: int| 0 <= i < k < r@.len()
            ==> r@[i].transaction_id > r@[k].transaction_id,
        forall|i: int|
            0 <= i < r@.len() ==> (#[trigger] r@[i]).account_id == account_id && spec_can_view_account(
                *current_user,
                account_of(bank.accounts@, account_id).user_id,
            ),
{
    broadcast use Seq::lemma_filter_pred;
    proof {
        lemma_history_is_every_row_of_the_account(*bank, *current_user, account_id);
    }
    let fi = match find_account(&bank.accounts, account_id) {
        Some(i) => i,
        None => { return Vec::new(); },
    };
    if !can_view_account(current_user, bank.accounts[fi].user_id) {
        return Vec::new();
    }
    let ghost pred = of_account(account_id);
    let n = bank.transactions.len();
    let mut found: Vec<TransactionRecord> = Vec::new();
    let mut i: usize = 0;
    while i < n
        invariant
            n == bank.transactions@.len(),
            i <= n,
            pred == of_account(account_id),
            found@ == bank.transactions@.take(i as int).filter(pred),
        decreases n - i,
    {
        proof {
            let ghost s = bank.transactions@.take(i + 1);
            assert(s.drop_last() =~= bank.transactions@.take(i as int));
            assert(s.last() == bank.transactions@[i as int]);
            reveal(Seq::filter);
            assert(s.filter(pred) == (if pred(s.last()) {
                s.drop_last().filter(pred).push(s.last())
            } else {
                s.drop_last().filter(pred)
            }));
        }
        if bank.transactions[i].account_id == account_id {
            found.push(bank.transactions[i].duplicate());
        }
        i = i + 1;
    }
    assert(bank.transactions@.take(n as int) =~= bank.transactions@);
    let r = crate::table::reversed(&found);
    assert forall|i: int| 0 <= i < r@.len() implies (#[trigger] r@[i]).account_id == account_id by {
        assert(r@[i] == found@[found@.len() - 1 - i]);
        assert(pred(found@[found@.len() - 1 - i]));
    }
    r
}

/// The pending list holds every transfer that waits for approval and no
/// other, each a transfer of the bank, newest first (ids strictly
/// decreasing).
pub proof fn lemma_pending_list_is_every_waiting_transfer(bank: Bank)
    ensures
        ({
            let shown = pending_transfers(bank);
            &&& forall|j: int| 0 <= j < bank.transfers@.len() && bank.transfers@[j].status@ == "pending"@
                ==> #[trigger] shown.contains(bank.transfers@[j])
            &&& forall|i: int| 0 <= i < shown.len() ==> (#[trigger] shown[i]).status@ == "pending"@
                && bank.transfers@.contains(shown[i])
            &&& keys_increasing(bank.transfers@) ==> forall|i: int, k: int| 0 <= i < k < shown.len()
                ==> shown[i].transfer_id > shown[k].transfer_id
        }),
{
    broadcast use Seq::lemma_filter_pred, Seq::lemma_filter_contains, Seq::lemma_filter_contains_rev;
    let p = is_pending();
    let f = bank.transfers@.filter(p);
    let shown = pending_transfers(bank);
    if keys_increasing(bank.transfers@) {
        lemma_filter_keeps_increasing(bank.transfers@, p);
    }
    assert forall|j: int| 0 <= j < bank.transfers@.len() && bank.transfers@[j].status@ == "pending"@
        implies #[trigger] shown.contains(bank.transfers@[j]) by {
        assert(p(bank.transfers@[j]));
        assert(f.contains(bank.transfers@[j]));
        let m = choose|m: int| 0 <= m < f.len() && f[m] == bank.transfers@[j];
        assert(shown[f.len() - 1 - m] == f[m]);
    }
    assert forall|i: int| 0 <= i < shown.len() implies (#[trigger] shown[i]).status@ == "pending"@
        && bank.transfers@.contains(shown[i]) by {
        assert(shown[i] == f[f.len() - 1 - i]);
        assert(f.contains(f[f.len() - 1 - i]));
    }
    assert forall|i: int, k: int| keys_increasing(bank.transfers@) && 0 <= i < k < shown.len() implies
        shown[i].transfer_id > shown[k].transfer_id by {
        assert(shown[i] == f[f.len() - 1 - i]);
        assert(shown[k] == f[f.len() - 1 - k]);
        assert(f[f.len() - 1 - k].key_of() < f[f.len() - 1 - i].key_of());
    }
}

/// The transfers waiting for approval, newest first.
pub fn list_pending_transfers(bank: &Bank) -> (r: Vec<Transfer>)
    ensures
        r@ == pending_transfers(*bank),
        forall|i: int| 0 <= i < r@.len() ==> (#[trigger] r@[i]).status@ == "pending"@,
        forall|j: int| 0 <= j < bank.transfers@.len() && bank.transfers@[j].status@ == "pending"@
            ==> #[trigger] r@.contains(bank.transfers@[j]),
        keys_increasing(bank.transfers@) ==> forall|i: int, k: int| 0 <= i < k < r@.len()
            ==> r@[i].transfer_id > r@[k].transfer_id,
{
    proof {
        lemma_pending_list_is_every_waiting_transfer(*bank);
    }
    broadcast use Seq::lemma_filter_pred;
    let ghost pred = is_pending();
    let n = bank.transfers.len();
    let mut found: Vec<Transfer> = Vec::new();
    let mut i: usize = 0;
    while i < n
        invariant
            n == bank.transfers@.len(),
            i <= n,
            pred == is_pending(),
            found@ == bank.transfers@.take(i as int).filter(pred),
        decreases n - i,
    {
        proof {
            let ghost s = bank.transfers@.take(i + 1);
            assert(s.drop_last() =~= bank.transfers@.take(i as int));
            assert(s.last() == bank.transfers@[i as int]);
            reveal(Seq::filter);
            assert(s.filter(pred) == (if pred(s.last()) {
                s.drop_last().filter(pred).push(s.last())
            } else {
                s.drop_last().filter(pred)
            }));
        }
        if str_eq(bank.transfers[i].status.as_str(), "pending") {
            found.push(bank.transfers[i].duplicate());
        }
        i = i + 1;
    }
    assert(bank.transfers@.take(n as int) =~= bank.transfers@);
    let r = crate::table::reversed(&found);
    assert forall|i: int| 0 <= i < r@.len() implies (#[trigger] r@[i]).status@ == "pending"@ by {
        assert(r@[i] == found@[found@.len() - 1 - i]);
        assert(pred(found@[found@.len() - 1 - i]));
    }
    r
}

} // verus!
