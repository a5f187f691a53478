//! Points in time, held as plain values.

use vstd::prelude::*;
use vstd::string::*;
use crate::text::{decimal, u64_text};

verus! {

/// A UTC instant: whole seconds since the Unix epoch and the nanoseconds
/// within that second.
#[derive(Debug, Clone, Copy, PartialEq, Eq, Structural, PartialOrd, Ord, Hash)]
pub struct Timestamp {
    pub secs: i64,
    pub nanos: u32,
}

impl Timestamp {
    /// Whether `self` lies strictly before `other`.
    pub open spec fn before(self, other: Timestamp) -> bool {
        self.secs < other.secs || (self.secs == other.secs && self.nanos < other.nanos)
    }

    /// Exec form of [`Timestamp::before`].
    pub fn is_before(&self, other: &Timestamp) -> (r: bool)
        ensures
            r == self.before(*other),
    {
        self.secs < other.secs || (self.secs == other.secs && self.nanos < other.nanos)
    }

    /// The current time (chrono `Utc::now`).
    ///
    /// Nothing is promised of the value but the range of the sub-second part
    /// that chrono documents (leap seconds included).
    #[verifier::external_body]
    pub fn now() -> (t: Timestamp)
        ensures
            t.nanos < 2_000_000_000,
    {
        let t = chrono::Utc::now();
        Timestamp { secs: t.timestamp(), nanos: t.timestamp_subsec_nanos() }
    }
}

/// A calendar date and time of day, as a clock reads it.
#[derive(Debug, Clone, Copy, PartialEq, Eq, Structural)]
pub struct CivilTime {
    pub year: i32,
    /// 1 to 12.
    pub month: u32,
    /// 1 to 31.
    pub day: u32,
    /// 0 to 23.
    pub hour: u32,
    /// 0 to 59.
    pub minute: u32,
    /// 0 to 59.
    pub second: u32,
    /// Nanoseconds since the whole second; 1,000,000,000 and above during a
    /// leap second.
    pub nanosecond: u32,
}

impl CivilTime {
    /// Whether every field lies in its range.
    pub open spec fn valid(self) -> bool {
        &&& 1 <= self.month <= 12
        &&& 1 <= self.day <= 31
        &&& self.hour <= 23
        &&& self.minute <= 59
        &&& self.second <= 59
        &&& self.nanosecond < 2_000_000_000
    }

    /// The second as a clock face shows it: 60 during a leap second.
    pub open spec fn shown_second(self) -> nat {
        (self.second + self.nanosecond / 1_000_000_000) as nat
    }
}

/// The current UTC date and time (chrono `Utc::now`, then its `Datelike`
/// and `Timelike` fields).
///
/// The ranges are those chrono documents for the fields (a leap second
/// shows as a nanosecond count of 1,000,000,000 or more). Which time comes
/// out depends on the clock and is not stated.
#[verifier::external_body]
pub fn utc_now_fields() -> (t: CivilTime)
    ensures
        t.valid(),
{
    let n = chrono::Utc::now();
    CivilTime {
        year: chrono::Datelike::year(&n),
        month: chrono::Datelike::month(&n),
        day: chrono::Datelike::day(&n),
        hour: chrono::Timelike::hour(&n),
        minute: chrono::Timelike::minute(&n),
        second: chrono::Timelike::second(&n),
        nanosecond: chrono::Timelike::nanosecond(&n),
    }
}

/// The current local date and time (chrono `Local::now`, then its
/// `Datelike` and `Timelike` fields).
///
/// As for [`utc_now_fields`]; the time also depends on the time zone.
#[verifier::external_body]
pub fn local_now_fields() -> (t: CivilTime)
    ensures
        t.valid(),
{
    let n = chrono::Local::now();
    CivilTime {
        year: chrono::Datelike::year(&n),
        month: chrono::Datelike::month(&n),
        day: chrono::Datelike::day(&n),
        hour: chrono::Timelike::hour(&n),
        minute: chrono::Timelike::minute(&n),
        second: chrono::Timelike::second(&n),
        nanosecond: chrono::Timelike::nanosecond(&n),
    }
}

/// `n` in decimal, zero-padded to at least `width` digits.
pub open spec fn zero_padded(n: nat, width: nat) -> Seq<char>
    decreases width,
{
    if decimal(n).len() >= width {
        decimal(n)
    } else {
        seq!['0'] + zero_padded(n, (width - 1) as nat)
    }
}

/// A year as `%Y` writes it: four digits for years 0 to 9999, else a sign
/// and at least four digits.
pub open spec fn year_text(y: int) -> Seq<char> {
    if 0 <= y <= 9999 {
        zero_padded(y as nat, 4)
    } else if y > 9999 {
        seq!['+'] + zero_padded(y as nat, 4)
    } else {
        seq!['-'] + zero_padded((-y) as nat, 4)
    }
}

/// The compact stamp of `t`: year, month and day, `sep`, then hour, minute
/// and second (60 during a leap second), each field zero-padded
/// (`%Y%m%d<sep>%H%M%S`).
pub open spec fn spec_compact_stamp(t: CivilTime, sep: Seq<char>) -> Seq<char> {
    year_text(t.year as int) + zero_padded(t.month as nat, 2) + zero_padded(t.day as nat, 2)
        + sep + zero_padded(t.hour as nat, 2) + zero_padded(t.minute as nat, 2)
        + zero_padded(t.shown_second(), 2)
}

/// Appends `n` zero-padded to `width` digits.
fn push_padded(s: &mut String, n: u64, width: u64)
    requires
        width <= 8,
    ensures
        final(s)@ == old(s)@ + zero_padded(n as nat, width as nat),
    decreases width,
{
    let digits = u64_text(n);
    if digits.unicode_len() as u64 >= width {
        s.append(digits.as_str());
    } else {
        s.append("0");
        proof {
            reveal_strlit("0");
        }
        push_padded(s, n, width - 1);
        assert(s@ =~= old(s)@ + zero_padded(n as nat, width as nat));
    }
}

/// The compact stamp of `t` (see [`spec_compact_stamp`]).
pub fn compact_stamp(t: &CivilTime, sep: &str) -> (r: String)
    ensures
        r@ == spec_compact_stamp(*t, sep@),
{
    let mut s = String::new();
    let y: i64 = t.year as i64;
    if 0 <= y && y <= 9999 {
        push_padded(&mut s, y as u64, 4);
    } else if y > 9999 {
        s.append("+");
        proof {
            reveal_strlit("+");
        }
        push_padded(&mut s, y as u64, 4);
    } else {
        s.append("-");
        proof {
            reveal_strlit("-");
        }
        push_padded(&mut s, (-y) as u64, 4);
    }
    push_padded(&mut s, t.month as u64, 2);
    push_padded(&mut s, t.day as u64, 2);
    s.append(sep);
    push_padded(&mut s, t.hour as u64, 2);
    push_padded(&mut s, t.minute as u64, 2);
    push_padded(&mut s, t.second as u64 + (t.nanosecond / 1_000_000_000) as u64, 2);
    s
}

/// Whether chrono represents the instant `secs` whole seconds after the
/// Unix epoch (chrono `DateTime::from_timestamp(secs, 0)` gives `Some`).
pub uninterp spec fn chrono_represents(secs: i64) -> bool;

/// The instant `secs` whole seconds after the Unix epoch, when chrono
/// represents it (chrono `DateTime::from_timestamp` with no nanoseconds,
/// read back with `timestamp` and `timestamp_subsec_nanos`).
///
/// Which seconds counts chrono represents is only named
/// ([`chrono_represents`]); what comes back is that instant.
#[verifier::external_body]
pub fn timestamp_from_secs(secs: i64) -> (r: Option<Timestamp>)
    ensures
        r is Some == chrono_represents(secs),
        r matches Some(t) ==> t.secs == secs && t.nanos == 0,
{
    match chrono::DateTime::from_timestamp(secs, 0) {
        Some(d) => Some(Timestamp { secs: d.timestamp(), nanos: d.timestamp_subsec_nanos() }),
        None => None,
    }
}

} // verus!
