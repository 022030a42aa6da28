//! The moment of a call, read from the system clock and written as an
//! identifier: date, `T`, time of day to the second, `Z`.

use vstd::prelude::*;
use std::time::{Duration, SystemTime, SystemTimeError};
use crate::merge::text_of;

verus! {

#[verifier::external_type_specification]
#[verifier::external_body]
pub struct ExSystemTime(std::time::SystemTime);

#[verifier::external_type_specification]
#[verifier::external_body]
pub struct ExSystemTimeError(std::time::SystemTimeError);

/// `SystemTime::now` reads the system clock. Nothing is stated of the moment.
pub assume_specification[ SystemTime::now ]() -> (t: SystemTime)
;

/// `SystemTimeError::duration` gives how far the moment lies before the one it
/// was measured from.
pub assume_specification[ SystemTimeError::duration ](e: &SystemTimeError) -> (d: Duration)
;

/// `Duration::as_secs` gives the whole seconds of the duration.
pub assume_specification[ Duration::as_secs ](d: &Duration) -> (s: u64)
;

/// `Duration::subsec_nanos` gives the part of the duration below one second, in
/// nanoseconds: less than one billion.
pub assume_specification[ Duration::subsec_nanos ](d: &Duration) -> (n: u32)
    ensures
        n < 1_000_000_000,
;

/// `SystemTime::duration_since` measures `t` from the start of 1970 in UTC: the
/// time between the two, as an error where `t` lies before 1970.
#[verifier::external_body]
fn since_epoch(t: &SystemTime) -> Result<Duration, SystemTimeError> {
    t.duration_since(std::time::UNIX_EPOCH)
}

/// What chrono writes for the moment `secs` seconds and `nanos` nanoseconds
/// after the start of 1970 in UTC, to the second and with `Z` for the zone;
/// nothing where chrono has no such moment.
pub uninterp spec fn rfc3339_utc(secs: int, nanos: int) -> Option<Seq<char>>;

/// A decimal digit.
pub open spec fn is_digit(c: char) -> bool {
    '0' <= c && c <= '9'
}

/// The form of a moment in UTC to the second: a year of four digits, or a sign
/// and more digits, then `-dd-ddTdd:dd:ddZ`.
pub open spec fn stamp_form(s: Seq<char>) -> bool {
    let n = s.len() as int;
    &&& n >= 20
    &&& forall|i: int| 0 <= i < n - 16 ==> is_digit(s[i]) || s[i] == '+' || s[i] == '-'
    &&& s[n - 16] == '-'
    &&& is_digit(s[n - 15])
    &&& is_digit(s[n - 14])
    &&& s[n - 13] == '-'
    &&& is_digit(s[n - 12])
    &&& is_digit(s[n - 11])
    &&& s[n - 10] == 'T'
    &&& is_digit(s[n - 9])
    &&& is_digit(s[n - 8])
    &&& s[n - 7] == ':'
    &&& is_digit(s[n - 6])
    &&& is_digit(s[n - 5])
    &&& s[n - 4] == ':'
    &&& is_digit(s[n - 3])
    &&& is_digit(s[n - 2])
    &&& s[n - 1] == 'Z'
}

/// The last second of the year 9999, in seconds from the start of 1970.
pub const LAST_FOUR_DIGIT_SECOND: i64 = 253_402_300_799;

/// `DateTime::from_timestamp` of chrono makes the moment in UTC, or nothing
/// where the seconds lie outside its years or the nanoseconds are no part of a
/// second; from 1970 to 9999 it makes one. `DateTime::to_rfc3339_opts` with
/// `SecondsFormat::Secs` and `use_z` writes it: the year in four digits, or
/// with a sign and more, then month, day, `T`, hour, minute and second in two
/// digits each, and `Z`.
#[verifier::external_body]
fn rfc3339_seconds(secs: i64, nanos: u32) -> (r: Option<String>)
    ensures
        text_of(r) == rfc3339_utc(secs as int, nanos as int),
        r matches Some(s) ==> stamp_form(s@),
        0 <= secs <= LAST_FOUR_DIGIT_SECOND && nanos < 1_000_000_000 ==> r.is_some(),
{
    match chrono::DateTime::from_timestamp(secs, nanos) {
        Some(t) => Some(t.to_rfc3339_opts(chrono::SecondsFormat::Secs, true)),
        None => None,
    }
}

/// A reading of the clock as a moment: seconds from the start of 1970, negative
/// before it, and nanoseconds into that second. `after` says on which side of
/// 1970 the reading lies, `secs` and `nanos` how far from it. Nothing where the
/// seconds do not fit, or where a reading before 1970 has a billion nanoseconds
/// or more.
pub open spec fn moment_of(after: bool, secs: int, nanos: int) -> Option<(int, int)> {
    if secs > i64::MAX {
        None
    } else if after {
        Some((secs, nanos))
    } else if nanos == 0 {
        Some((-secs, 0))
    } else if nanos < 1_000_000_000 {
        Some((-secs - 1, 1_000_000_000 - nanos))
    } else {
        None
    }
}

/// The identifier of a reading of the clock.
pub open spec fn stamp_of(after: bool, secs: int, nanos: int) -> Option<Seq<char>> {
    match moment_of(after, secs, nanos) {
        Some(m) => rfc3339_utc(m.0, m.1),
        None => None,
    }
}

/// A reading of the clock as a moment.
pub fn signed_moment(after: bool, secs: u64, nanos: u32) -> (m: Option<(i64, u32)>)
    ensures
        match m {
            Some(p) => moment_of(after, secs as int, nanos as int) == Some((p.0 as int, p.1 as int)),
            None => moment_of(after, secs as int, nanos as int).is_none(),
        },
{
    if secs > 0x7fff_ffff_ffff_ffff {
        None
    } else if after {
        Some((secs as i64, nanos))
    } else if nanos == 0 {
        Some((-(secs as i64), 0))
    } else if nanos < 1_000_000_000 {
        Some((-(secs as i64) - 1, 1_000_000_000 - nanos))
    } else {
        None
    }
}

/// The identifier of a reading of the clock: the moment in UTC, to the second.
/// There is one for every reading from 1970 to 9999.
pub fn stamp_at(after: bool, secs: u64, nanos: u32) -> (stamp: Option<String>)
    ensures
        text_of(stamp) == stamp_of(after, secs as int, nanos as int),
        stamp matches Some(s) ==> stamp_form(s@),
        after && secs <= LAST_FOUR_DIGIT_SECOND && nanos < 1_000_000_000 ==> stamp.is_some(),
{
    match signed_moment(after, secs, nanos) {
        Some(m) => rfc3339_seconds(m.0, m.1),
        None => None,
    }
}

/// Reads the system clock: on which side of 1970 it stands, and how far from
/// it in seconds and nanoseconds.
pub fn read_clock() -> (r: (bool, u64, u32))
    ensures
        r.2 < 1_000_000_000,
{
    let now = SystemTime::now();
    match since_epoch(&now) {
        Ok(d) => (true, d.as_secs(), d.subsec_nanos()),
        Err(e) => {
            let d = e.duration();
            (false, d.as_secs(), d.subsec_nanos())
        },
    }
}

/// The moment of the call as an identifier, where `id_unix` asks for it. There
/// is none where the clock stands outside the years that can be written.
pub fn take_stamp(id_unix: bool) -> (stamp: Option<String>)
    ensures
        !id_unix ==> stamp.is_none(),
        stamp matches Some(s) ==> stamp_form(s@),
{
    if id_unix {
        let (after, secs, nanos) = read_clock();
        stamp_at(after, secs, nanos)
    } else {
        None
    }
}

} // verus!
