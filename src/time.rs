use vstd::prelude::*;

verus! {

/// The wall-clock time in Australia/Sydney, as chrono writes it, of a Unix timestamp.
pub uninterp spec fn sydney_time_of(secs: int) -> Seq<char>;

/// First second of chrono's calendar: -262143-01-01 00:00:00 UTC.
pub const FIRST_SECOND: i64 = -8334601315200;

/// Last second of chrono's calendar: 262142-12-31 23:59:59 UTC.
pub const LAST_SECOND: i64 = 8210266876799;

/// Relies on chrono's `DateTime::<Utc>::from_timestamp`, which is `None`
/// exactly when the day leaves the years `MIN_YEAR..=MAX_YEAR` (-262143 to
/// 262142), then `with_timezone` to chrono-tz's bundled Australia/Sydney zone
/// and its `Display`: the text depends on the seconds alone.
#[verifier::external_body]
fn sydney_time(secs: i64) -> (r: Option<String>)
    ensures
        r is Some <==> FIRST_SECOND <= secs <= LAST_SECOND,
        r matches Some(s) ==> s@ == sydney_time_of(secs as int),
{
    match chrono::DateTime::<chrono::Utc>::from_timestamp(secs, 0) {
        Some(t) => Some(t.with_timezone(&chrono_tz::Australia::Sydney).to_string()),
        None => None,
    }
}

/// The local time in Sydney of a pass boundary given in Unix seconds, or
/// `None` where the timestamp is beyond what the calendar can hold.
pub fn convert_unix_to_local(date: u64) -> (r: Option<String>)
    ensures
        r is Some <==> date <= LAST_SECOND,
        r matches Some(s) ==> s@ == sydney_time_of(date as int),
{
    if date > i64::MAX as u64 {
        None
    } else {
        sydney_time(date as i64)
    }
}

} // verus!
