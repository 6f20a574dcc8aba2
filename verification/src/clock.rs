use vstd::prelude::*;

verus! {

/// The text chrono gives the instant `secs` seconds and `nanos` nanoseconds
/// after the Unix epoch, formatted as `%Y-%m-%d %H:%M:%S`; `None` where
/// chrono holds no such instant.
pub uninterp spec fn utc_text(secs: i64, nanos: u32) -> Option<Seq<char>>;

/// The text is one that chrono writes for some instant.
pub open spec fn is_timestamp_text(t: Seq<char>) -> bool {
    exists|secs: i64, nanos: u32| #[trigger] utc_text(secs, nanos) == Some(t)
}

/// Calls std's `SystemTime::now()` and measures it from `UNIX_EPOCH` with
/// `duration_since`. The result depends on the clock: nothing is stated of
/// the seconds; the nanoseconds are below one second, as `Duration`'s
/// `subsec_nanos` documents. A clock set before the epoch gives `None`.
#[verifier::external_body]
fn time_since_epoch() -> (r: Option<(u64, u32)>)
    ensures
        r matches Some(t) ==> t.1 < 1_000_000_000,
{
    match std::time::SystemTime::now().duration_since(std::time::UNIX_EPOCH) {
        Ok(d) => Some((d.as_secs(), d.subsec_nanos())),
        Err(_) => None,
    }
}

/// Calls chrono's `DateTime::from_timestamp` and formats the instant with
/// `%Y-%m-%d %H:%M:%S`. Claimed: the result is `utc_text` of the arguments,
/// a function of them alone.
#[verifier::external_body]
fn format_utc(secs: i64, nanos: u32) -> (r: Option<String>)
    ensures
        r is Some <==> utc_text(secs, nanos) is Some,
        r matches Some(s) ==> utc_text(secs, nanos) == Some(s@),
{
    match chrono::DateTime::from_timestamp(secs, nanos) {
        Some(t) => Some(t.format("%Y-%m-%d %H:%M:%S").to_string()),
        None => None,
    }
}

/// The text recorded for a reading of the clock, `(seconds, nanoseconds)`
/// since the Unix epoch: chrono's `%Y-%m-%d %H:%M:%S` text of exactly that
/// instant. Nothing for no reading, for seconds beyond `i64`, or for an
/// instant chrono does not hold.
pub(crate) fn timestamp_of(reading: Option<(u64, u32)>) -> (r: Option<String>)
    ensures
        reading matches Some((secs, nanos)) ==> (secs <= i64::MAX ==> (match r {
            Some(t) => utc_text(secs as i64, nanos) == Some(t@),
            None => utc_text(secs as i64, nanos) is None,
        })),
        reading matches Some((secs, nanos)) ==> (secs > i64::MAX ==> r is None),
        reading is None ==> r is None,
        r matches Some(t) ==> is_timestamp_text(t@),
{
    let (secs, nanos) = match reading {
        Some(t) => t,
        None => { return None; },
    };
    if secs > i64::MAX as u64 {
        return None;
    }
    let r = format_utc(secs as i64, nanos);
    proof {
        if r is Some {
            assert(utc_text(secs as i64, nanos) == Some(r->0@));
        }
    }
    r
}

/// The current time as `%Y-%m-%d %H:%M:%S` in UTC: the text `timestamp_of`
/// gives for the reading the clock gives now; `None` where the clock reads
/// before the Unix epoch or beyond what chrono holds.
pub(crate) fn current_timestamp() -> (r: Option<String>)
    ensures
        r matches Some(s) ==> is_timestamp_text(s@),
{
    timestamp_of(time_since_epoch())
}

} // verus!
