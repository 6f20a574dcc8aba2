use vstd::prelude::*;

use crate::models::{Account, AuditRecord, Row, TransactionRecord, Transfer, UserRecord};
use crate::table::{check_keys_increasing, keys_increasing, lemma_key_unique};

verus! {

/// The bank's tables, each kept in the order of its primary key.
pub struct Bank {
    pub users: Vec<UserRecord>,
    pub accounts: Vec<Account>,
    pub transfers: Vec<Transfer>,
    pub transactions: Vec<TransactionRecord>,
    pub audit_log: Vec<AuditRecord>,
}

/// A write that the store cannot carry out.
#[derive(Debug, PartialEq, Eq, Structural)]
pub enum StoreError {
    /// A table would need a primary key beyond `i32::MAX`.
    KeysExhausted,
    /// The clock gives no time to record: it reads before the Unix epoch
    /// or beyond the dates chrono holds.
    ClockUnavailable,
}

/// There is an account with this id.
pub open spec fn account_exists(s: Seq<Account>, id: i32) -> bool {
    exists|i: int| 0 <= i < s.len() && #[trigger] s[i].account_id == id
}

/// The position of the account with this id.
pub open spec fn account_index(s: Seq<Account>, id: i32) -> int {
    choose|i: int| 0 <= i < s.len() && #[trigger] s[i].account_id == id
}

/// The account with this id.
pub open spec fn account_of(s: Seq<Account>, id: i32) -> Account {
    s[account_index(s, id)]
}

/// The money an account holds, counting an overdrawn account as holding none.
pub open spec fn positive_part(balance: i64) -> int {
    if balance > 0 {
        balance as int
    } else {
        0
    }
}

/// The sum of the balances.
pub open spec fn total_balance(s: Seq<Account>) -> int
    decreases s.len(),
{
    if s.len() == 0 {
        0
    } else {
        total_balance(s.drop_last()) + s.last().balance
    }
}

/// The sum of the positive balances.
pub open spec fn funds_total(s: Seq<Account>) -> int
    decreases s.len(),
{
    if s.len() == 0 {
        0
    } else {
        funds_total(s.drop_last()) + positive_part(s.last().balance)
    }
}

/// The account with a new balance.
pub open spec fn with_balance(a: Account, balance: int) -> Account {
    Account { balance: balance as i64, ..a }
}

/// The accounts after adding `delta` to the balance of account `id`.
pub open spec fn adjust(s: Seq<Account>, id: i32, delta: int) -> Seq<Account> {
    let i = account_index(s, id);
    s.update(i, with_balance(s[i], s[i].balance + delta))
}

/// The accounts after `amount` leaves account `from` and reaches account `to`.
pub open spec fn move_funds(s: Seq<Account>, from: i32, to: i32, amount: int) -> Seq<Account> {
    adjust(adjust(s, from, -amount), to, amount)
}

impl Bank {
    /// The tables are consistent: primary keys increase in every table,
    /// every transfer names existing accounts and moves a positive amount,
    /// and the positive balances together fit in an `i64`.
    pub open spec fn wf(self) -> bool {
        &&& keys_increasing(self.users@)
        &&& keys_increasing(self.accounts@)
        &&& keys_increasing(self.transfers@)
        &&& keys_increasing(self.transactions@)
        &&& keys_increasing(self.audit_log@)
        &&& forall|i: int|
            0 <= i < self.transfers@.len() ==> {
                &&& #[trigger] self.transfers@[i].amount > 0
                &&& account_exists(self.accounts@, self.transfers@[i].from_account)
                &&& account_exists(self.accounts@, self.transfers@[i].to_account)
            }
        &&& funds_total(self.accounts@) <= i64::MAX
    }
}

/// With increasing keys, the account found at an index holding the id is
/// the account `account_index` names.
pub proof fn lemma_account_index(s: Seq<Account>, id: i32, i: int)
    requires
        keys_increasing(s),
        0 <= i < s.len(),
        s[i].account_id == id,
    ensures
        account_exists(s, id),
        account_index(s, id) == i,
{
    let j = account_index(s, id);
    lemma_key_unique(s, i, j);
}

/// Replacing one account changes the sums by the change of its balance.
pub proof fn lemma_totals_update(s: Seq<Account>, i: int, a: Account)
    requires
        0 <= i < s.len(),
    ensures
        total_balance(s.update(i, a)) == total_balance(s) - s[i].balance + a.balance,
        funds_total(s.update(i, a)) == funds_total(s) - positive_part(s[i].balance)
            + positive_part(a.balance),
    decreases s.len(),
{
    let t = s.update(i, a);
    if i == s.len() - 1 {
        assert(t.drop_last() =~= s.drop_last());
    } else {
        lemma_totals_update(s.drop_last(), i, a);
        assert(t.drop_last() =~= s.drop_last().update(i, a));
    }
}

/// The positive balances of two different accounts together are at most
/// the funds total.
pub proof fn lemma_two_parts_le_funds(s: Seq<Account>, i: int, j: int)
    requires
        0 <= i < s.len(),
        0 <= j < s.len(),
        i != j,
    ensures
        positive_part(s[i].balance) + positive_part(s[j].balance) <= funds_total(s),
    decreases s.len(),
{
    let n = s.len() - 1;
    if i == n {
        lemma_part_le_funds(s.drop_last(), j);
    } else if j == n {
        lemma_part_le_funds(s.drop_last(), i);
    } else {
        lemma_two_parts_le_funds(s.drop_last(), i, j);
    }
}

/// The positive balance of one account is at most the funds total.
pub proof fn lemma_part_le_funds(s: Seq<Account>, i: int)
    requires
        0 <= i < s.len(),
    ensures
        positive_part(s[i].balance) <= funds_total(s),
        funds_total(s) >= 0,
    decreases s.len(),
{
    lemma_funds_nonneg(s.drop_last());
    if i < s.len() - 1 {
        lemma_part_le_funds(s.drop_last(), i);
    }
}

/// The funds total is never negative.
pub proof fn lemma_funds_nonneg(s: Seq<Account>)
    ensures
        funds_total(s) >= 0,
    decreases s.len(),
{
    if s.len() > 0 {
        lemma_funds_nonneg(s.drop_last());
    }
}

/// Changing the balance of an existing account keeps the ids where they
/// are and changes the total by `delta`.
pub proof fn lemma_adjust(s: Seq<Account>, id: i32, delta: int)
    requires
        keys_increasing(s),
        account_exists(s, id),
    ensures
        adjust(s, id, delta).len() == s.len(),
        keys_increasing(adjust(s, id, delta)),
        forall|j: int| 0 <= j < s.len() ==> #[trigger] adjust(s, id, delta)[j].account_id == s[j].account_id,
        forall|k: i32| account_exists(s, k) ==> account_exists(adjust(s, id, delta), k) && account_index(adjust(s, id, delta), k) == account_index(s, k),
        forall|k: i32| #[trigger] account_exists(adjust(s, id, delta), k) ==> account_exists(s, k),
        total_balance(adjust(s, id, delta)) == total_balance(s) + (with_balance(s[account_index(s, id)], s[account_index(s, id)].balance + delta).balance - s[account_index(s, id)].balance),
{
    let i = account_index(s, id);
    let t = adjust(s, id, delta);
    lemma_totals_update(s, i, with_balance(s[i], s[i].balance + delta));
    assert forall|a: int, b: int| 0 <= a < b < t.len() implies t[a].key_of() < t[b].key_of() by {
        assert(s[a].key_of() < s[b].key_of());
    }
    assert forall|k: i32| account_exists(s, k) implies account_exists(t, k) && account_index(t, k) == account_index(s, k) by {
        let j = account_index(s, k);
        assert(t[j].account_id == k);
        lemma_account_index(t, k, j);
    }
    assert forall|k: i32| #[trigger] account_exists(t, k) implies account_exists(s, k) by {
        let j = account_index(t, k);
        assert(s[j].account_id == k);
    }
}

/// Moving money between two existing accounts keeps the ids where they are
/// and keeps the total balance.
pub proof fn lemma_move_funds(s: Seq<Account>, from: i32, to: i32, amount: int)
    requires
        keys_increasing(s),
        account_exists(s, from),
        account_exists(s, to),
        i64::MIN <= account_of(s, from).balance - amount <= i64::MAX,
        from != to ==> i64::MIN <= account_of(s, to).balance + amount <= i64::MAX,
    ensures
        move_funds(s, from, to, amount).len() == s.len(),
        keys_increasing(move_funds(s, from, to, amount)),
        forall|k: i32| #[trigger] account_exists(move_funds(s, from, to, amount), k) <==> account_exists(s, k),
        total_balance(move_funds(s, from, to, amount)) == total_balance(s),
{
    let s1 = adjust(s, from, -amount);
    lemma_adjust(s, from, -amount);
    let fi = account_index(s, from);
    assert(s1[fi].balance == s[fi].balance - amount);
    lemma_adjust(s1, to, amount);
    let ti = account_index(s1, to);
    assert(ti == account_index(s, to));
    if from == to {
        assert(s1[ti].balance + amount == s[fi].balance);
    } else {
        assert(ti != fi) by {
            if ti == fi {
                assert(s[fi].account_id == from);
                assert(s[ti].account_id == to);
            }
        }
        assert(s1[ti] == s[ti]);
    }
    let s2 = move_funds(s, from, to, amount);
    assert forall|k: i32| #[trigger] account_exists(s2, k) <==> account_exists(s, k) by {
        if account_exists(s, k) {
            assert(account_exists(s1, k));
        }
        if account_exists(s2, k) {
            assert(account_exists(s1, k));
        }
    }
}

/// Moving `amount` out of an account that holds at least that much, into
/// an existing account, never raises the funds total, and each step fits
/// in an `i64`.
pub proof fn lemma_move_funds_bounded(s: Seq<Account>, from: i32, to: i32, amount: int)
    requires
        keys_increasing(s),
        account_exists(s, from),
        account_exists(s, to),
        0 < amount <= account_of(s, from).balance,
        funds_total(s) <= i64::MAX,
    ensures
        from != to ==> account_of(s, to).balance + amount <= i64::MAX,
        funds_total(move_funds(s, from, to, amount)) <= funds_total(s),
        total_balance(move_funds(s, from, to, amount)) == total_balance(s),
        keys_increasing(move_funds(s, from, to, amount)),
        forall|k: i32| #[trigger] account_exists(move_funds(s, from, to, amount), k) <==> account_exists(s, k),
        move_funds(s, from, to, amount).len() == s.len(),
{
    let fi = account_index(s, from);
    let ti = account_index(s, to);
    if from != to {
        assert(fi != ti);
        lemma_two_parts_le_funds(s, fi, ti);
    }
    lemma_move_funds(s, from, to, amount);
    let s1 = adjust(s, from, -amount);
    lemma_adjust(s, from, -amount);
    lemma_totals_update(s, fi, with_balance(s[fi], s[fi].balance - amount));
    let ti1 = account_index(s1, to);
    assert(ti1 == ti);
    lemma_totals_update(s1, ti, with_balance(s1[ti], s1[ti].balance + amount));
}

/// The funds total of a prefix is at most the funds total.
pub proof fn lemma_funds_prefix(s: Seq<Account>, k: int)
    requires
        0 <= k <= s.len(),
    ensures
        funds_total(s.take(k)) <= funds_total(s),
    decreases s.len() - k,
{
    if k < s.len() {
        lemma_funds_prefix(s, k + 1);
        assert(s.take(k + 1).drop_last() =~= s.take(k));
    } else {
        assert(s.take(k) =~= s);
    }
}

/// Whether the positive balances together fit in an `i64`.
pub fn check_funds_fit(accounts: &Vec<Account>) -> (r: bool)
    ensures
        r == (funds_total(accounts@) <= i64::MAX),
{
    let n = accounts.len();
    let mut sum: i64 = 0;
    let mut i: usize = 0;
    while i < n
        invariant
            n == accounts@.len(),
            i <= n,
            sum == funds_total(accounts@.take(i as int)),
        decreases n - i,
    {
        let b = accounts[i].balance;
        let part: i64 = if b > 0 { b } else { 0 };
        proof {
            assert(accounts@.take(i + 1).drop_last() =~= accounts@.take(i as int));
            lemma_funds_prefix(accounts@, i + 1);
        }
        if sum > i64::MAX - part {
            return false;
        }
        sum = sum + part;
        i = i + 1;
    }
    assert(accounts@.take(n as int) =~= accounts@);
    true
}

/// Whether every transfer moves a positive amount between existing accounts.
pub fn check_transfers(accounts: &Vec<Account>, transfers: &Vec<Transfer>) -> (r: bool)
    requires
        keys_increasing(accounts@),
    ensures
        r == forall|i: int|
            0 <= i < transfers@.len() ==> {
                &&& #[trigger] transfers@[i].amount > 0
                &&& account_exists(accounts@, transfers@[i].from_account)
                &&& account_exists(accounts@, transfers@[i].to_account)
            },
{
    let n = transfers.len();
    let mut i: usize = 0;
    while i < n
        invariant
            n == transfers@.len(),
            i <= n,
            keys_increasing(accounts@),
            forall|j: int|
                0 <= j < i ==> {
                    &&& #[trigger] transfers@[j].amount > 0
                    &&& account_exists(accounts@, transfers@[j].from_account)
                    &&& account_exists(accounts@, transfers@[j].to_account)
                },
        decreases n - i,
    {
        let t = &transfers[i];
        if t.amount <= 0 || find_account(accounts, t.from_account).is_none() || find_account(
            accounts,
            t.to_account,
        ).is_none() {
            return false;
        }
        i = i + 1;
    }
    true
}

impl Bank {
    /// A bank without users, accounts or records.
    pub fn new() -> (r: Bank)
        ensures
            r.wf(),
            r.users@.len() == 0,
            r.accounts@.len() == 0,
            r.transfers@.len() == 0,
            r.transactions@.len() == 0,
            r.audit_log@.len() == 0,
    {
        Bank {
            users: Vec::new(),
            accounts: Vec::new(),
            transfers: Vec::new(),
            transactions: Vec::new(),
            audit_log: Vec::new(),
        }
    }

    /// The bank holding these tables, where they are consistent; `None`
    /// where they are not.
    pub fn from_tables(
        users: Vec<UserRecord>,
        accounts: Vec<Account>,
        transfers: Vec<Transfer>,
        transactions: Vec<TransactionRecord>,
        audit_log: Vec<AuditRecord>,
    ) -> (r: Option<Bank>)
        ensures
            r is Some <==> (Bank { users, accounts, transfers, transactions, audit_log }).wf(),
            r matches Some(b) ==> b == (Bank { users, accounts, transfers, transactions, audit_log }),
    {
        if !check_keys_increasing(&users) || !check_keys_increasing(&accounts)
            || !check_keys_increasing(&transfers) || !check_keys_increasing(&transactions)
            || !check_keys_increasing(&audit_log) {
            return None;
        }
        if !check_transfers(&accounts, &transfers) || !check_funds_fit(&accounts) {
            return None;
        }
        Some(Bank { users, accounts, transfers, transactions, audit_log })
    }
}

/// The position of the account with id `id`, if there is one.
pub fn find_account(accounts: &Vec<Account>, id: i32) -> (r: Option<usize>)
    requires
        keys_increasing(accounts@),
    ensures
        r is Some <==> account_exists(accounts@, id),
        r matches Some(i) ==> i == account_index(accounts@, id) && i < accounts@.len(),
{
    let n = accounts.len();
    let mut i: usize = 0;
    while i < n
        invariant
            n == accounts@.len(),
            i <= n,
            keys_increasing(accounts@),
            forall|k: int| 0 <= k < i ==> accounts@[k].account_id != id,
        decreases n - i,
    {
        if accounts[i].account_id == id {
            proof {
                lemma_account_index(accounts@, id, i as int);
            }
            return Some(i);
        }
        i = i + 1;
    }
    None
}

/// Sets the balance of the account at position `i`.
pub fn set_balance(accounts: &mut Vec<Account>, i: usize, balance: i64)
    requires
        i < old(accounts)@.len(),
    ensures
        final(accounts)@ == old(accounts)@.update(i as int, with_balance(old(accounts)@[i as int], balance as int)),
{
    let a = accounts[i].duplicate();
    let updated = Account {
        account_id: a.account_id,
        user_id: a.user_id,
        account_type: a.account_type,
        balance,
        status: a.status,
    };
    accounts.set(i, updated);
}

} // verus!
