//! Points in time, held as plain values, and their RFC 3339 text form.

use vstd::prelude::*;
use vstd::arithmetic::div_mod::lemma_mod_multiples_vanish;

verus! {

/// Seconds from the epoch to 0000-01-01T00:00:00, the first local time that
/// RFC 3339 text can write.
pub const MIN_LOCAL: i64 = -62_167_219_200;

/// Seconds from the epoch to 9999-12-31T23:59:59, the last local time that
/// RFC 3339 text can write.
pub const MAX_LOCAL: i64 = 253_402_300_799;

/// An instant with the UTC offset, in seconds east, under which it is written.
#[derive(Debug, Clone, Copy, PartialEq, Eq, Structural)]
pub struct Timestamp {
    /// Whole seconds since 1970-01-01T00:00:00Z.
    pub secs: i64,
    /// Nanoseconds past `secs`.
    pub nanos: u32,
    /// Offset of the local clock from UTC, in seconds east.
    pub offset: i32,
}

/// What `chrono::DateTime::to_rfc3339` writes for a timestamp.
pub uninterp spec fn rfc3339_text(t: Timestamp) -> Seq<char>;

/// What `chrono::DateTime::parse_from_rfc3339` reads from a text, as a timestamp.
pub uninterp spec fn parsed_rfc3339(s: Seq<char>) -> Option<Timestamp>;

impl Timestamp {
    /// A timestamp that RFC 3339 text represents exactly: the nanoseconds are
    /// under one second, or under two in the last second of a minute (a leap
    /// second, written `:60`), the offset is whole minutes under one day, and
    /// the local date falls in the years 0 to 9999.
    pub open spec fn wf(&self) -> bool {
        &&& self.nanos < 1_000_000_000 || (self.nanos < 2_000_000_000 && self.secs % 60 == 59)
        &&& self.offset % 60 == 0
        &&& -86_400 < self.offset < 86_400
        &&& MIN_LOCAL <= self.secs + self.offset <= MAX_LOCAL
    }

    /// Nanoseconds since the epoch.
    pub open spec fn instant(&self) -> int {
        self.secs * 1_000_000_000 + self.nanos
    }

    /// Whether RFC 3339 text represents this timestamp exactly.
    pub fn is_writable(&self) -> (r: bool)
        ensures
            r == self.wf(),
    {
        if self.nanos >= 2_000_000_000 || self.offset <= -86_400 || self.offset >= 86_400 {
            return false;
        }
        let a: i32 = if self.offset < 0 {
            -self.offset
        } else {
            self.offset
        };
        proof {
            lemma_mod_60_negated(self.offset as int);
        }
        if a % 60 != 0 {
            return false;
        }
        if !(MIN_LOCAL - self.offset as i64 <= self.secs && self.secs <= MAX_LOCAL - self.offset as i64) {
            return false;
        }
        self.nanos < 1_000_000_000 || last_second_of_minute(self.secs)
    }

    /// Milliseconds since the epoch, rounded down.
    pub fn timestamp_millis(&self) -> (r: i64)
        requires
            self.wf(),
        ensures
            r == self.instant() / 1_000_000,
    {
        assert(self.instant() / 1_000_000 == self.secs * 1000 + self.nanos / 1_000_000)
            by (nonlinear_arith)
            requires
                self.nanos < 2_000_000_000,
        ;
        self.secs * 1000 + (self.nanos / 1_000_000) as i64
    }
}

proof fn lemma_mod_60_negated(x: int)
    ensures
        (x % 60 == 0) == ((-x) % 60 == 0),
{
    if x % 60 == 0 {
        assert((-x) == 60 * (-(x / 60))) by (nonlinear_arith)
            requires
                x % 60 == 0,
        ;
        assert((-x) % 60 == 0) by (nonlinear_arith)
            requires
                (-x) == 60 * (-(x / 60)),
        ;
    }
    if (-x) % 60 == 0 {
        assert(x == 60 * (-((-x) / 60))) by (nonlinear_arith)
            requires
                (-x) % 60 == 0,
        ;
        assert(x % 60 == 0) by (nonlinear_arith)
            requires
                x == 60 * (-((-x) / 60)),
        ;
    }
}

/// Whether `a` comes strictly before `b` in time: by seconds, then by
/// nanoseconds, whatever their offsets.
pub open spec fn before(a: Timestamp, b: Timestamp) -> bool {
    a.secs < b.secs || (a.secs == b.secs && a.nanos < b.nanos)
}

/// The offset brought to whole minutes under one day, towards zero.
pub open spec fn clamp_offset(off: i32) -> i32 {
    if off <= -86_400 || off >= 86_400 {
        0
    } else if off < 0 {
        -((-off) - (-off) % 60) as i32
    } else {
        (off - off % 60) as i32
    }
}

/// The seconds brought into the range of local years 0 to 9999.
pub open spec fn clamp_secs(t: Timestamp) -> i64 {
    if t.secs < MIN_LOCAL - clamp_offset(t.offset) {
        (MIN_LOCAL - clamp_offset(t.offset)) as i64
    } else if t.secs > MAX_LOCAL - clamp_offset(t.offset) {
        (MAX_LOCAL - clamp_offset(t.offset)) as i64
    } else {
        t.secs
    }
}

/// Whether `secs` is the last second of a UTC minute, where a leap second
/// may stand; for seconds within a day of the writable range.
pub fn last_second_of_minute(secs: i64) -> (r: bool)
    requires
        MIN_LOCAL - 86_400 < secs < MAX_LOCAL + 86_400,
    ensures
        r == (secs % 60 == 59),
{
    let x = (secs - (MIN_LOCAL - 86_400)) as u64;
    proof {
        lemma_mod_multiples_vanish(-1_036_121_760, x as int, 60);
        assert(secs == 60 * (-1_036_121_760) + x);
    }
    x % 60 == 59
}

/// The timestamp brought into the range that RFC 3339 text represents
/// exactly: seconds and nanoseconds held at the ends of their ranges, the
/// offset cut to whole minutes towards zero, or 0 where it is a day or more.
pub open spec fn clamp(t: Timestamp) -> Timestamp {
    Timestamp {
        secs: clamp_secs(t),
        nanos: if t.nanos < 1_000_000_000 || (t.nanos < 2_000_000_000 && clamp_secs(t) % 60 == 59) {
            t.nanos
        } else {
            999_999_999
        },
        offset: clamp_offset(t.offset),
    }
}

impl Timestamp {
    /// Whether `self` comes strictly before `other`.
    pub fn precedes(&self, other: &Timestamp) -> (r: bool)
        ensures
            r == before(*self, *other),
    {
        self.secs < other.secs || (self.secs == other.secs && self.nanos < other.nanos)
    }

    /// This timestamp brought into the range that RFC 3339 text represents
    /// exactly; a timestamp already in it is returned unchanged.
    pub fn clamped(&self) -> (r: Timestamp)
        ensures
            r == clamp(*self),
            r.wf(),
            self.wf() ==> r == *self,
    {
        let off = self.offset;
        let offset = if off <= -86_400 || off >= 86_400 {
            0
        } else if off < 0 {
            -((-off) - (-off) % 60)
        } else {
            off - off % 60
        };
        let secs = if self.secs < MIN_LOCAL - offset as i64 {
            MIN_LOCAL - offset as i64
        } else if self.secs > MAX_LOCAL - offset as i64 {
            MAX_LOCAL - offset as i64
        } else {
            self.secs
        };
        let nanos = if self.nanos < 1_000_000_000 || (self.nanos < 2_000_000_000 && last_second_of_minute(secs)) {
            self.nanos
        } else {
            999_999_999
        };
        Timestamp { secs, nanos, offset }
    }

    /// The next nanosecond after this timestamp, under the same offset; the
    /// last instant that RFC 3339 text can write has none and stays as it is.
    pub fn next_nanosecond(&self) -> (r: Timestamp)
        ensures
            r == next_after(*self),
    {
        if self.nanos < 999_999_999 {
            Timestamp { nanos: self.nanos + 1, ..*self }
        } else if self.secs < MAX_LOCAL - self.offset as i64 {
            Timestamp { secs: self.secs + 1, nanos: 0, ..*self }
        } else {
            *self
        }
    }
}

/// Whether `t` is at or past the last instant that RFC 3339 text can write,
/// so that no later one can be written.
pub open spec fn is_last_instant(t: Timestamp) -> bool {
    t.nanos >= 999_999_999 && t.secs >= MAX_LOCAL - t.offset
}

/// The next nanosecond after `t` under its offset, or `t` itself where it is
/// the last instant.
pub open spec fn next_after(t: Timestamp) -> Timestamp {
    if t.nanos < 999_999_999 {
        Timestamp { nanos: (t.nanos + 1) as u32, ..t }
    } else if t.secs < MAX_LOCAL - t.offset {
        Timestamp { secs: (t.secs + 1) as i64, nanos: 0, ..t }
    } else {
        t
    }
}

/// The next nanosecond comes strictly later, and stays writable.
pub proof fn lemma_next_after(t: Timestamp)
    ensures
        !is_last_instant(t) ==> before(t, next_after(t)),
        !before(next_after(t), t),
        t.wf() ==> next_after(t).wf(),
{
}

/// The current time, as a timestamp that RFC 3339 text represents exactly.
pub fn current_time() -> (r: Timestamp)
    ensures
        r.wf(),
{
    now().clamped()
}

/// Relies on `chrono::Local::now`: the current time with the offset of the
/// process's time zone. Nothing is promised of the reading.
#[verifier::external_body]
pub fn now() -> (r: Timestamp) {
    let n = chrono::Local::now();
    Timestamp { secs: n.timestamp(), nanos: n.timestamp_subsec_nanos(), offset: n.offset().local_minus_utc() }
}

/// Relies on `chrono::DateTime::to_rfc3339` on a `DateTime<FixedOffset>`: the
/// date and time under the offset, the fraction in 0, 3, 6 or 9 digits as it
/// needs, and the offset as `+HH:MM`, which `parse_from_rfc3339` reads back to
/// the same instant and offset.
#[verifier::external_body]
pub fn to_rfc3339(t: &Timestamp) -> (r: String)
    requires
        t.wf(),
    ensures
        r@ == rfc3339_text(*t),
        parsed_rfc3339(r@) == Some(*t),
{
    let off = chrono::FixedOffset::east_opt(t.offset).unwrap();
    chrono::DateTime::from_timestamp(t.secs, t.nanos).unwrap().with_timezone(&off).to_rfc3339()
}

/// Relies on `chrono::DateTime::parse_from_rfc3339`: the instant and the offset
/// written in the text, or `None` where the text is not RFC 3339.
#[verifier::external_body]
pub fn parse_rfc3339(s: &str) -> (r: Option<Timestamp>)
    ensures
        r == parsed_rfc3339(s@),
{
    match chrono::DateTime::parse_from_rfc3339(s) {
        Ok(d) => Some(Timestamp { secs: d.timestamp(), nanos: d.timestamp_subsec_nanos(), offset: d.offset().local_minus_utc() }),
        Err(_) => None,
    }
}

} // verus!
