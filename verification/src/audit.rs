use vstd::prelude::*;

use sha2::Digest;

use crate::clock::{current_timestamp, is_timestamp_text};
use crate::models::{AuditRecord, Row};
use crate::store::{Bank, StoreError};
use crate::table::{has_room, keys_increasing, lemma_push_keeps_increasing, next_key, next_key_of};
use crate::text::{digit_char, int_text, lemma_int_text, push_int};

verus! {

/// The SHA-256 digest of a byte string.
pub uninterp spec fn sha256_digest(data: Seq<u8>) -> Seq<u8>;

/// Calls `Sha256::digest` of the sha2 crate. Claimed: the result is the
/// digest of `data`, 32 bytes long.
#[verifier::external_body]
fn sha256(data: &[u8]) -> (r: Vec<u8>)
    ensures
        r@ == sha256_digest(data@),
        r@.len() == 32,
{
    sha2::Sha256::digest(data).to_vec()
}

/// The lower-case hexadecimal digit of a value below 16.
pub open spec fn hex_digit(v: int) -> char {
    if v < 10 {
        digit_char(v)
    } else if v == 10 {
        'a'
    } else if v == 11 {
        'b'
    } else if v == 12 {
        'c'
    } else if v == 13 {
        'd'
    } else if v == 14 {
        'e'
    } else {
        'f'
    }
}

/// Each byte written as two lower-case hexadecimal digits, high half first.
pub open spec fn hex_lower(b: Seq<u8>) -> Seq<char>
    decreases b.len(),
{
    if b.len() == 0 {
        seq![]
    } else {
        hex_lower(b.drop_last()) + seq![
            hex_digit(b.last() as int / 16),
            hex_digit(b.last() as int % 16),
        ]
    }
}

/// Calls `hex::encode` of the hex crate. Claimed: each byte becomes two
/// lower-case hexadecimal digits, high half first, in the order of the bytes.
#[verifier::external_body]
fn hex_encode(bytes: &[u8]) -> (r: String)
    ensures
        r@ == hex_lower(bytes@),
{
    hex::encode(bytes)
}

/// The lower-case hexadecimal SHA-256 digest of the UTF-8 bytes of `data`.
pub open spec fn spec_generate_hash(data: Seq<char>) -> Seq<char> {
    hex_lower(sha256_digest(vstd::utf8::encode_utf8(data)))
}

pub fn generate_hash(data: &str) -> (r: String)
    ensures
        r@ == spec_generate_hash(data@),
{
    let digest = sha256(data.as_bytes());
    hex_encode(digest.as_slice())
}

/// How a user id appears in the hashed text: its decimal, or `NULL`.
pub open spec fn user_id_text(user_id: Option<i32>) -> Seq<char> {
    match user_id {
        Some(v) => int_text(v as int),
        None => "NULL"@,
    }
}

/// The text whose hash an audit entry carries: the user id, action,
/// details, time and previous hash, separated by `|`.
pub open spec fn audit_raw(
    user_id: Option<i32>,
    action: Seq<char>,
    details: Seq<char>,
    created_at: Seq<char>,
    prev_hash: Seq<char>,
) -> Seq<char> {
    user_id_text(user_id) + "|"@ + action + "|"@ + details + "|"@ + created_at + "|"@ + prev_hash
}

/// The text an audit entry's hash is computed over names its user first:
/// the decimal text of the user id followed by `|`, or `NULL|` for an entry
/// without a user. So two entries that differ only in their user id hash
/// different texts.
pub proof fn lemma_hashed_text_names_the_user(
    user_id: Option<i32>,
    other_user_id: Option<i32>,
    action: Seq<char>,
    details: Seq<char>,
    created_at: Seq<char>,
    prev_hash: Seq<char>,
)
    ensures
        user_id matches Some(v) ==> audit_raw(user_id, action, details, created_at, prev_hash).take(
            int_text(v as int).len() + 1int) == int_text(v as int) + "|"@,
        user_id is None ==> audit_raw(user_id, action, details, created_at, prev_hash).take(5) == "NULL|"@,
        user_id != other_user_id ==> audit_raw(user_id, action, details, created_at, prev_hash) != audit_raw(
            other_user_id, action, details, created_at, prev_hash),
{
    reveal_strlit("|");
    reveal_strlit("NULL");
    reveal_strlit("NULL|");
    let t1 = user_id_text(user_id);
    let t2 = user_id_text(other_user_id);
    let rest = action + "|"@ + details + "|"@ + created_at + "|"@ + prev_hash;
    let r1 = audit_raw(user_id, action, details, created_at, prev_hash);
    let r2 = audit_raw(other_user_id, action, details, created_at, prev_hash);
    assert(r1 =~= t1 + "|"@ + rest);
    assert(r2 =~= t2 + "|"@ + rest);
    assert(r1.take(t1.len() + 1int) =~= t1 + "|"@);
    match user_id {
        Some(v) => { lemma_int_text(v as int, 0); },
        None => { assert("NULL|"@ =~= "NULL"@ + "|"@); },
    }
    match other_user_id {
        Some(v) => { lemma_int_text(v as int, 0); },
        None => {},
    }
    // Neither text holds a `|`.
    assert forall|i: int| 0 <= i < t1.len() implies #[trigger] t1[i] != '|' by {}
    assert forall|i: int| 0 <= i < t2.len() implies #[trigger] t2[i] != '|' by {}
    if r1 == r2 {
        if t1.len() < t2.len() {
            assert(r1[t1.len() as int] == '|');
            assert(r2[t1.len() as int] == t2[t1.len() as int]);
        } else if t2.len() < t1.len() {
            assert(r2[t2.len() as int] == '|');
            assert(r1[t2.len() as int] == t1[t2.len() as int]);
        }
        assert(t1 =~= r1.take(t1.len() as int));
        assert(t2 =~= r2.take(t2.len() as int));
        match (user_id, other_user_id) {
            (Some(a), Some(b)) => { lemma_int_text(a as int, b as int); },
            (Some(a), None) => { assert(t1[0] != 'N'); },
            (None, Some(b)) => { assert(t2[0] != 'N'); },
            (None, None) => {},
        }
    }
}

/// The hash that closes the chain at the end of the log: the hash of the
/// last entry, or `GENESIS` for an empty log.
pub open spec fn last_hash(log: Seq<AuditRecord>) -> Seq<char> {
    if log.len() == 0 {
        "GENESIS"@
    } else {
        log.last().current_hash@
    }
}

/// The entry holds exactly these values, with its hash computed over them.
pub open spec fn entry_is(
    r: AuditRecord,
    log_id: int,
    user_id: Option<i32>,
    action: Seq<char>,
    details: Seq<char>,
    created_at: Seq<char>,
    prev_hash: Seq<char>,
) -> bool {
    &&& r.log_id == log_id
    &&& r.user_id == user_id
    &&& r.action@ == action
    &&& r.details@ == details
    &&& r.created_at@ == created_at
    &&& r.prev_hash@ == prev_hash
    &&& r.current_hash@ == spec_generate_hash(audit_raw(user_id, action, details, created_at, prev_hash))
}

/// `log1` is `log0` with one entry more, which records `action` and
/// `details` for `user_id` at `created_at`, takes the next key and links
/// to the hash at the end of `log0`.
pub open spec fn appended_entry(
    log0: Seq<AuditRecord>,
    log1: Seq<AuditRecord>,
    user_id: Option<i32>,
    action: Seq<char>,
    details: Seq<char>,
    created_at: Seq<char>,
) -> bool {
    &&& log1.len() == log0.len() + 1
    &&& log1.drop_last() == log0
    &&& entry_is(log1.last(), next_key(log0), user_id, action, details, created_at, last_hash(log0))
}

/// Every entry links to the hash of the entry before it (`GENESIS` for the
/// first) and carries the hash of its own values and that link.
pub open spec fn chain_valid(log: Seq<AuditRecord>) -> bool {
    forall|i: int|
        0 <= i < log.len() ==> {
            &&& (#[trigger] log[i]).prev_hash@ == last_hash(log.take(i))
            &&& log[i].current_hash@ == spec_generate_hash(
                audit_raw(
                    log[i].user_id,
                    log[i].action@,
                    log[i].details@,
                    log[i].created_at@,
                    log[i].prev_hash@,
                ),
            )
        }
}

/// Appending an entry keeps a valid chain valid.
pub proof fn lemma_append_keeps_chain(
    log0: Seq<AuditRecord>,
    log1: Seq<AuditRecord>,
    user_id: Option<i32>,
    action: Seq<char>,
    details: Seq<char>,
    created_at: Seq<char>,
)
    requires
        chain_valid(log0),
        appended_entry(log0, log1, user_id, action, details, created_at),
    ensures
        chain_valid(log1),
{
    assert forall|i: int| 0 <= i < log1.len() implies {
        &&& (#[trigger] log1[i]).prev_hash@ == last_hash(log1.take(i))
        &&& log1[i].current_hash@ == spec_generate_hash(
            audit_raw(
                log1[i].user_id,
                log1[i].action@,
                log1[i].details@,
                log1[i].created_at@,
                log1[i].prev_hash@,
            ),
        )
    } by {
        if i < log0.len() {
            assert(log1[i] == log0[i]);
            assert(log1.take(i) =~= log0.take(i));
        } else {
            assert(log1.take(i) =~= log0);
        }
    }
}

/// The text that is hashed for a new entry.
fn audit_raw_text(
    user_id: Option<i32>,
    action: &str,
    details: &str,
    created_at: &str,
    prev_hash: &str,
) -> (r: String)
    ensures
        r@ == audit_raw(user_id, action@, details@, created_at@, prev_hash@),
{
    let mut s = String::new();
    match user_id {
        Some(v) => push_int(&mut s, v),
        None => s.append("NULL"),
    }
    s.append("|");
    s.append(action);
    s.append("|");
    s.append(details);
    s.append("|");
    s.append(created_at);
    s.append("|");
    s.append(prev_hash);
    assert(s@ =~= audit_raw(user_id, action@, details@, created_at@, prev_hash@));
    s
}

/// Appends an entry to the audit log, recorded at `created_at`, that
/// links to the hash of the last entry (`GENESIS` for an empty log). Fails,
/// changing nothing, where the log has no key left.
pub fn log_action_at(
    bank: &mut Bank,
    user_id: Option<i32>,
    action: &str,
    details: &str,
    created_at: &str,
) -> (r: Result<(), StoreError>)
    ensures
        r is Ok <==> has_room(old(bank).audit_log@, 1),
        r is Err ==> r == Err::<(), StoreError>(StoreError::KeysExhausted),
        r is Ok ==> appended_entry(
            old(bank).audit_log@,
            final(bank).audit_log@,
            user_id,
            action@,
            details@,
            created_at@,
        ),
        r is Err ==> final(bank).audit_log@ == old(bank).audit_log@,
        final(bank).users == old(bank).users,
        final(bank).accounts == old(bank).accounts,
        final(bank).transfers == old(bank).transfers,
        final(bank).transactions == old(bank).transactions,
        keys_increasing(old(bank).audit_log@) ==> keys_increasing(final(bank).audit_log@),
        chain_valid(old(bank).audit_log@) ==> chain_valid(final(bank).audit_log@),
{
    let log_id = match next_key_of(&bank.audit_log) {
        Some(k) => k,
        None => return Err(StoreError::KeysExhausted),
    };
    let prev_hash = if bank.audit_log.len() == 0 {
        proof {
            reveal_strlit("GENESIS");
        }
        String::from_str("GENESIS")
    } else {
        bank.audit_log[bank.audit_log.len() - 1].current_hash.clone()
    };
    let raw = audit_raw_text(user_id, action, details, created_at, prev_hash.as_str());
    let current_hash = generate_hash(raw.as_str());
    let entry = AuditRecord {
        log_id,
        user_id,
        action: String::from_str(action),
        details: String::from_str(details),
        created_at: String::from_str(created_at),
        prev_hash,
        current_hash,
    };
    let ghost log0 = bank.audit_log@;
    bank.audit_log.push(entry);
    proof {
        assert(bank.audit_log@.drop_last() =~= log0);
        if keys_increasing(log0) {
            lemma_push_keeps_increasing(log0, entry);
        }
        if chain_valid(log0) {
            lemma_append_keeps_chain(log0, bank.audit_log@, user_id, action@, details@, created_at@);
        }
    }
    Ok(())
}

/// Appends an entry to the audit log, recorded at the current time. The
/// entry is the one `log_action_at` appends, for the time read from the
/// clock; where the clock gives no time, nothing is written.
pub fn log_action(bank: &mut Bank, user_id: Option<i32>, action: &str, details: &str) -> (r:
    Result<(), StoreError>)
    ensures
        r != Err::<(), StoreError>(StoreError::ClockUnavailable) ==> (r is Ok <==> has_room(
            old(bank).audit_log@,
            1,
        )),
        r is Err ==> r == Err::<(), StoreError>(StoreError::ClockUnavailable) || r == Err::<
            (),
            StoreError,
        >(StoreError::KeysExhausted),
        r is Ok ==> exists|created_at: Seq<char>|
            is_timestamp_text(created_at) && #[trigger] appended_entry(
                old(bank).audit_log@,
                final(bank).audit_log@,
                user_id,
                action@,
                details@,
                created_at,
            ),
        r is Err ==> final(bank).audit_log@ == old(bank).audit_log@,
        final(bank).users == old(bank).users,
        final(bank).accounts == old(bank).accounts,
        final(bank).transfers == old(bank).transfers,
        final(bank).transactions == old(bank).transactions,
        keys_increasing(old(bank).audit_log@) ==> keys_increasing(final(bank).audit_log@),
        chain_valid(old(bank).audit_log@) ==> chain_valid(final(bank).audit_log@),
{
    let created_at = match current_timestamp() {
        Some(t) => t,
        None => { return Err(StoreError::ClockUnavailable); },
    };
    log_action_at(bank, user_id, action, details, created_at.as_str())
}

/// How many entries a query with this `LIMIT` returns from a log of `len`
/// entries: a negative limit sets no bound.
pub open spec fn limited_count(limit: i32, len: nat) -> nat {
    if limit < 0 || limit >= len {
        len
    } else {
        limit as nat
    }
}

/// After an entry is appended, it is the first entry listed.
pub proof fn lemma_new_entry_listed_first(
    log0: Seq<AuditRecord>,
    log1: Seq<AuditRecord>,
    user_id: Option<i32>,
    action: Seq<char>,
    details: Seq<char>,
    created_at: Seq<char>,
    limit: i32,
)
    requires
        appended_entry(log0, log1, user_id, action, details, created_at),
        limit != 0,
    ensures
        log1.reverse().take(limited_count(limit, log1.len()) as int).len() >= 1,
        log1.reverse().take(limited_count(limit, log1.len()) as int)[0] == log1.last(),
        entry_is(log1.reverse().take(limited_count(limit, log1.len()) as int)[0], next_key(log0),
            user_id, action, details, created_at, last_hash(log0)),
{
}

/// Listing the audit log with a limit gives the newest entries, newest
/// first: for a limit of zero or more, as many entries as the limit or as
/// the log holds, whichever is fewer; for a negative limit, every entry. The
/// `i`-th listed entry is the `i`-th from the end of the log.
pub proof fn lemma_listing_is_newest_first(log: Seq<AuditRecord>, limit: i32)
    ensures
        ({
            let listed = log.reverse().take(limited_count(limit, log.len()) as int);
            &&& 0 <= limit ==> listed.len() == (if limit < log.len() { limit as int } else { log.len() as int })
            &&& limit < 0 ==> listed.len() == log.len()
            &&& forall|i: int| 0 <= i < listed.len() ==> #[trigger] listed[i] == log[log.len() - 1 - i]
        }),
{
}

/// The newest `limit` entries of the audit log, newest first; all of them
/// where `limit` is negative.
pub fn list_audit_logs(bank: &Bank, limit: i32) -> (r: Vec<AuditRecord>)
    ensures
        r@ == bank.audit_log@.reverse().take(limited_count(limit, bank.audit_log@.len()) as int),
        0 <= limit ==> r@.len() == (if limit < bank.audit_log@.len() { limit as int } else {
            bank.audit_log@.len() as int
        }),
        limit < 0 ==> r@.len() == bank.audit_log@.len(),
        forall|i: int| 0 <= i < r@.len() ==> #[trigger] r@[i] == bank.audit_log@[bank.audit_log@.len() - 1 - i],
{
    proof {
        lemma_listing_is_newest_first(bank.audit_log@, limit);
    }
    let n = bank.audit_log.len();
    let count: usize = if limit < 0 || limit as usize >= n {
        n
    } else {
        limit as usize
    };
    let mut r: Vec<AuditRecord> = Vec::new();
    let mut k: usize = 0;
    while k < count
        invariant
            n == bank.audit_log@.len(),
            count <= n,
            k <= count,
            r@.len() == k,
            forall|j: int| 0 <= j < k ==> r@[j] == bank.audit_log@[n - 1 - j],
        decreases count - k,
    {
        r.push(bank.audit_log[n - 1 - k].duplicate());
        k = k + 1;
    }
    assert(r@ =~= bank.audit_log@.reverse().take(count as int));
    r
}

} // verus!
