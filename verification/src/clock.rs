//! The wall-clock model that cron matching consumes: a plain-value
//! reading of the current time, taken either in the local timezone or
//! at a fixed hour offset from UTC.

use vstd::prelude::*;

use crate::scan::{all_digits, digits_value, lemma_digits_value_nonneg, parse_u8_range};

verus! {

/// One wall-clock reading. The calendar fields drive cron matching;
/// `epoch_seconds` orders readings and measures the time between them.
/// `weekday` counts from Sunday as zero.
#[derive(Debug, Clone, Copy, PartialEq, Eq, Structural)]
pub struct ClockTime {
    pub minute: u8,
    pub hour: u8,
    pub day: u8,
    pub month: u8,
    pub weekday: u8,
    pub epoch_seconds: i64,
}

impl ClockTime {
    /// The ranges a real wall-clock reading satisfies.
    pub open spec fn wf(self) -> bool {
        &&& self.minute < 60
        &&& self.hour < 24
        &&& 1 <= self.day <= 31
        &&& 1 <= self.month <= 12
        &&& self.weekday < 7
    }
}

/// Relies on `time::OffsetDateTime::now_local` and the accessors
/// `minute`, `hour`, `day`, `month`, `weekday` and `unix_timestamp`:
/// the reading is the current time in the local timezone, absent when
/// the local offset cannot be determined; each accessor stays in its
/// documented calendar range.
#[verifier::external_body]
pub fn now_local_clock() -> (r: Option<ClockTime>)
    ensures
        r matches Some(t) ==> t.wf(),
{
    match time::OffsetDateTime::now_local() {
        Ok(t) => Some(
            ClockTime {
                minute: t.minute(),
                hour: t.hour(),
                day: t.day(),
                month: u8::from(t.month()),
                weekday: t.weekday().number_days_from_sunday(),
                epoch_seconds: t.unix_timestamp(),
            },
        ),
        Err(_) => None,
    }
}

/// Relies on `time::OffsetDateTime::now_utc`, `UtcOffset::from_hms`,
/// `checked_to_offset` and the same accessors as [`now_local_clock`]:
/// the reading is the current time shifted by `offset_hours` whole
/// hours from UTC, absent when the offset is outside the range
/// `UtcOffset` accepts or the shifted date leaves the representable
/// years.
#[verifier::external_body]
pub fn now_offset_clock(offset_hours: i8) -> (r: Option<ClockTime>)
    ensures
        r matches Some(t) ==> t.wf(),
{
    let off = time::UtcOffset::from_hms(offset_hours, 0, 0).ok()?;
    let t = time::OffsetDateTime::now_utc().checked_to_offset(off)?;
    Some(
        ClockTime {
            minute: t.minute(),
            hour: t.hour(),
            day: t.day(),
            month: u8::from(t.month()),
            weekday: t.weekday().number_days_from_sunday(),
            epoch_seconds: t.unix_timestamp(),
        },
    )
}

/// `s` with a single leading sign removed.
pub open spec fn sign_stripped(s: Seq<char>) -> Seq<char> {
    if s.len() > 0 && (s[0] == '+' || s[0] == '-') {
        s.drop_first()
    } else {
        s
    }
}

/// The literal denotes a negative number.
pub open spec fn is_negative_literal(s: Seq<char>) -> bool {
    s.len() > 0 && s[0] == '-'
}

/// `s` is an optionally signed decimal literal in the range of `i8`.
pub open spec fn is_i8_literal(s: Seq<char>) -> bool {
    &&& sign_stripped(s).len() >= 1
    &&& all_digits(sign_stripped(s))
    &&& (if is_negative_literal(s) {
        digits_value(sign_stripped(s)) <= 128
    } else {
        digits_value(sign_stripped(s)) <= 127
    })
}

/// The value an `i8` literal denotes.
pub open spec fn i8_literal_value(s: Seq<char>) -> int
    recommends
        is_i8_literal(s),
{
    if is_negative_literal(s) {
        -digits_value(sign_stripped(s))
    } else {
        digits_value(sign_stripped(s))
    }
}

/// Parse an optionally signed decimal literal exactly as `i8` parsing
/// would.
pub fn parse_i8(s: &str) -> (r: Option<i8>)
    ensures
        (match r {
            Some(n) => is_i8_literal(s@) && n as int == i8_literal_value(s@),
            None => !is_i8_literal(s@),
        }),
{
    let len = s.unicode_len();
    if len == 0 {
        return None;
    }
    let c0 = s.get_char(0);
    let neg = c0 == '-';
    let start: usize = if c0 == '-' || c0 == '+' {
        1
    } else {
        0
    };
    proof {
        if start == 1 {
            assert(s@.subrange(1, len as int) =~= s@.drop_first());
        } else {
            assert(s@.subrange(0, len as int) =~= s@);
        }
        assert(s@.subrange(start as int, len as int) =~= sign_stripped(s@));
    }
    match parse_u8_range(s, start, len) {
        None => None,
        Some(v) => {
            proof {
                lemma_digits_value_nonneg(sign_stripped(s@));
            }
            if neg {
                if v <= 128 {
                    Some((-(v as i16)) as i8)
                } else {
                    None
                }
            } else {
                if v <= 127 {
                    Some(v as i8)
                } else {
                    None
                }
            }
        },
    }
}

/// Read the clock as cron evaluation wants it: at a fixed offset when
/// the offset variable holds an `i8` literal that `UtcOffset` accepts,
/// in the local timezone otherwise; absent when neither clock can be
/// read, in which case the caller skips the tick.
pub fn current_clock(offset_env: Option<&str>) -> (r: Option<ClockTime>)
    ensures
        r matches Some(t) ==> t.wf(),
{
    match offset_env {
        Some(v) => {
            match parse_i8(v) {
                Some(h) => {
                    match now_offset_clock(h) {
                        Some(t) => Some(t),
                        None => now_local_clock(),
                    }
                },
                None => now_local_clock(),
            }
        },
        None => now_local_clock(),
    }
}

} // verus!
