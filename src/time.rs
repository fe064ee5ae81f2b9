use vstd::prelude::*;

verus! {

/// Seconds from the Unix epoch to 0000-01-01T00:00:00Z.
pub const MIN_SECS: i64 = -62167219200;

/// Seconds from the Unix epoch to 9999-12-31T23:59:59Z.
pub const MAX_SECS: i64 = 253402300799;

pub const NANOS_PER_SEC: u32 = 1_000_000_000;

pub const SECS_PER_DAY: i64 = 86400;

/// Day number (counted from 0001-01-01 as day 1) of 1970-01-01.
pub const EPOCH_DAY: i32 = 719163;

/// Day number of 0000-01-01.
pub const MIN_DAY: i32 = -365;

/// Day number of 9999-12-31.
pub const MAX_DAY: i32 = 3652059;

/// A UTC instant: whole seconds since the Unix epoch and the nanoseconds past them.
#[derive(Clone, Copy, Debug, PartialEq, Eq, Structural)]
pub struct Instant {
    pub secs: i64,
    pub nanos: u32,
}

/// A calendar day of the proleptic Gregorian calendar, as its day number
/// (0001-01-01 is day 1, 0000-12-31 is day 0, 1970-01-01 is day 719163).
#[derive(Clone, Copy, Debug, PartialEq, Eq, Structural)]
pub struct CalDate {
    pub day: i32,
}

/// Quotient of `a / b` rounded toward zero, as Rust's integer division does.
pub open spec fn trunc_div(a: int, b: int) -> int {
    if a >= 0 {
        a / b
    } else {
        -((-a) / b)
    }
}

/// Remainder that goes with `trunc_div`: it takes the sign of `a`.
pub open spec fn trunc_rem(a: int, b: int) -> int {
    a - b * trunc_div(a, b)
}

pub open spec fn nanos_per_sec() -> int {
    1_000_000_000
}

impl Instant {
    /// Within years 0 to 9999 and with a nanosecond part below one second.
    pub open spec fn wf(&self) -> bool {
        MIN_SECS <= self.secs <= MAX_SECS && self.nanos < NANOS_PER_SEC
    }

    pub open spec fn total_nanos(&self) -> int {
        self.secs * nanos_per_sec() + self.nanos
    }

    /// The calendar day (UTC) on which this instant falls.
    pub open spec fn spec_date(&self) -> int {
        self.secs as int / (SECS_PER_DAY as int) + EPOCH_DAY
    }

    /// Builds an instant from seconds and nanoseconds; `None` outside years 0 to 9999
    /// or when the nanosecond part is a second or more (a leap second).
    pub fn from_parts(secs: i64, nanos: u32) -> (r: Option<Instant>)
        ensures
            r == (if MIN_SECS <= secs <= MAX_SECS && nanos < NANOS_PER_SEC {
                Some(Instant { secs, nanos })
            } else {
                None::<Instant>
            }),
    {
        if MIN_SECS <= secs && secs <= MAX_SECS && nanos < NANOS_PER_SEC {
            Some(Instant { secs, nanos })
        } else {
            None
        }
    }

    /// The UTC calendar day of this instant.
    pub fn date(&self) -> (r: CalDate)
        requires
            self.wf(),
        ensures
            r.day == self.spec_date(),
            r.wf(),
    {
        if self.secs >= 0 {
            let q: u64 = (self.secs as u64) / (SECS_PER_DAY as u64);
            proof {
                vstd::arithmetic::div_mod::lemma_div_is_ordered(self.secs as int, MAX_SECS as int, 86400);
                assert(253402300799int / 86400int == 2932896);
            }
            (CalDate { day: q as i32 + EPOCH_DAY })
        } else {
            let m: u64 = (-self.secs) as u64;
            let q: u64 = (m + 86399) / 86400;
            proof {
                lemma_floor_neg(self.secs as int, m as int, q as int);
            }
            (CalDate { day: EPOCH_DAY - q as i32 })
        }
    }
}

/// For `s < 0` with magnitude `m`, Euclidean `s / 86400` is `-ceil(m / 86400)`.
proof fn lemma_floor_neg(s: int, m: int, q: int)
    requires
        s < 0,
        m == -s,
        m <= 62167219200,
        q == (m + 86399) / 86400,
    ensures
        s / 86400 == -q,
        q <= 719528,
{
    assert(s / 86400 == -q) by (nonlinear_arith)
        requires s < 0, m == -s, q == (m + 86399) / 86400;
    assert(q <= 719528) by (nonlinear_arith)
        requires m <= 62167219200, q == (m + 86399) / 86400, m > 0;
}

impl CalDate {
    pub open spec fn wf(&self) -> bool {
        MIN_DAY <= self.day <= MAX_DAY
    }

    /// Monday is 0, Sunday is 6 (0001-01-01 was a Monday).
    pub open spec fn is_weekend(&self) -> bool {
        weekend_day(self.day as int)
    }
}

/// Monday is 0, Sunday is 6 (0001-01-01, day 1, was a Monday).
pub open spec fn weekday_of(day: int) -> int {
    (day - 1) % 7
}

/// The day with this day number is a Saturday or a Sunday.
pub open spec fn weekend_day(day: int) -> bool {
    weekday_of(day) >= 5
}

/// Whole seconds from `from` to `to`, rounded toward zero (negative when `to` is earlier).
pub open spec fn seconds_between(from: Instant, to: Instant) -> int {
    trunc_div(to.total_nanos() - from.total_nanos(), nanos_per_sec())
}

/// A signed number of seconds split into days, hours, minutes and seconds, each part
/// carrying the sign of the whole.
pub open spec fn parts_of(s: int) -> (int, int, int, int) {
    let minutes = trunc_div(s, 60);
    let hours = trunc_div(minutes, 60);
    (trunc_div(hours, 24), trunc_rem(hours, 24), trunc_rem(minutes, 60), trunc_rem(s, 60))
}

/// Rust's `/` and `%` on a signed value and a positive divisor.
fn div_rem_toward_zero(a: i64, b: i64) -> (r: (i64, i64))
    requires
        b > 0,
        a > i64::MIN,
    ensures
        r.0 == trunc_div(a as int, b as int),
        r.1 == trunc_rem(a as int, b as int),
{
    if a >= 0 {
        let q: u64 = (a as u64) / (b as u64);
        let m: u64 = (a as u64) % (b as u64);
        assert(b * q + m == a && q <= a) by (nonlinear_arith)
            requires q == (a as u64) / (b as u64), m == (a as u64) % (b as u64), a >= 0, b > 0;
        assert(trunc_div(a as int, b as int) == q);
        assert(trunc_rem(a as int, b as int) == a - b * q);
        (q as i64, m as i64)
    } else {
        let n: u64 = (-a) as u64;
        let q: u64 = n / (b as u64);
        let m: u64 = n % (b as u64);
        assert(b * q + m == n && q <= n) by (nonlinear_arith)
            requires q == n / (b as u64), m == n % (b as u64), n > 0, b > 0;
        assert(trunc_div(a as int, b as int) == -q);
        assert(b * (-(q as int)) == -(b * q)) by (nonlinear_arith);
        assert(trunc_rem(a as int, b as int) == a + b * q);
        (-(q as i64), -(m as i64))
    }
}

/// Whole seconds from `from` to `to`, rounded toward zero.
pub fn elapsed_seconds(from: &Instant, to: &Instant) -> (r: i64)
    requires
        from.wf(),
        to.wf(),
    ensures
        r == seconds_between(*from, *to),
{
    let t: i128 = (to.secs as i128) * 1_000_000_000i128 + (to.nanos as i128);
    let f: i128 = (from.secs as i128) * 1_000_000_000i128 + (from.nanos as i128);
    let d: i128 = t - f;
    if d >= 0 {
        let q: u128 = (d as u128) / 1_000_000_000u128;
        assert(q <= d / 1_000_000_000) by (nonlinear_arith)
            requires q == (d as u128) / 1_000_000_000u128, d >= 0;
        assert(d <= 315569519999999999999) by (nonlinear_arith)
            requires d == t - f, t == to.secs * 1_000_000_000 + to.nanos,
                f == from.secs * 1_000_000_000 + from.nanos, to.secs <= MAX_SECS,
                from.secs >= MIN_SECS, to.nanos < 1_000_000_000, from.nanos >= 0;
        q as i64
    } else {
        let n: u128 = (-d) as u128;
        let q: u128 = n / 1_000_000_000u128;
        assert(n <= 315569519999999999999) by (nonlinear_arith)
            requires d == t - f, n == -d, t == to.secs * 1_000_000_000 + to.nanos,
                f == from.secs * 1_000_000_000 + from.nanos, from.secs <= MAX_SECS,
                to.secs >= MIN_SECS, from.nanos < 1_000_000_000, to.nanos >= 0;
        -(q as i64)
    }
}

/// The signed time from `from` to `to` as (days, hours, minutes, seconds).
pub fn elapsed_parts(from: &Instant, to: &Instant) -> (r: (i64, i64, i64, i64))
    requires
        from.wf(),
        to.wf(),
    ensures
        (r.0 as int, r.1 as int, r.2 as int, r.3 as int) == parts_of(seconds_between(*from, *to)),
{
    let seconds = elapsed_seconds(from, to);
    assert(seconds > i64::MIN) by {
        assert(to.total_nanos() - from.total_nanos() >= -315569519999999999999);
    }
    let (minutes, seconds) = div_rem_toward_zero(seconds, 60);
    let (hours, minutes) = div_rem_toward_zero(minutes, 60);
    let (days, hours) = div_rem_toward_zero(hours, 24);
    (days, hours, minutes, seconds)
}

/// What chrono reads from an RFC 3339 text: the instant as Unix seconds and the
/// nanoseconds past them, or `None` where the text is not RFC 3339.
pub uninterp spec fn rfc3339_reading(text: Seq<char>) -> Option<(i64, u32)>;

/// The RFC 3339 text (UTC offset written `+00:00`) that chrono writes for an instant.
pub uninterp spec fn rfc3339_text(secs: i64, nanos: u32) -> Seq<char>;

/// Relies on chrono's `DateTime::parse_from_rfc3339`, with `timestamp` and
/// `timestamp_subsec_nanos` read off the parsed value.
#[verifier::external_body]
fn parse_rfc3339_parts(text: &str) -> (r: Option<(i64, u32)>)
    ensures
        r == rfc3339_reading(text@),
{
    match chrono::DateTime::parse_from_rfc3339(text) {
        Ok(d) => Some((d.timestamp(), d.timestamp_subsec_nanos())),
        Err(_) => None,
    }
}

/// Relies on chrono's `DateTime::<Utc>::from_timestamp` (which accepts every instant of
/// years 0 to 9999) and `DateTime::to_rfc3339`.
#[verifier::external_body]
fn format_rfc3339_parts(secs: i64, nanos: u32) -> (r: String)
    requires
        MIN_SECS <= secs <= MAX_SECS,
        nanos < NANOS_PER_SEC,
    ensures
        r@ == rfc3339_text(secs, nanos),
{
    chrono::DateTime::<chrono::Utc>::from_timestamp(secs, nanos).unwrap().to_rfc3339()
}

/// Relies on std's `SystemTime::now` and `SystemTime::duration_since(UNIX_EPOCH)`: whether
/// the clock reads at or after the Unix epoch, and the distance from the epoch as whole
/// seconds and the nanoseconds past them. Neither call panics; nothing is known of the
/// value.
#[verifier::external_body]
fn clock_reading() -> (r: (bool, u64, u32)) {
    match std::time::SystemTime::now().duration_since(std::time::UNIX_EPOCH) {
        Ok(d) => (true, d.as_secs(), d.subsec_nanos()),
        Err(e) => (false, e.duration().as_secs(), e.duration().subsec_nanos()),
    }
}

/// The instant of a clock reading: `secs` seconds and `nanos` nanoseconds after the Unix
/// epoch when `after_epoch` holds, else that long before it. A nanosecond part of a
/// second or more counts as one nanosecond short of a second; an instant outside years
/// 0 to 9999 is held to the nearest end of that span, with no nanoseconds.
pub open spec fn clock_instant(after_epoch: bool, secs: int, nanos: int) -> Instant {
    let ns: int = if nanos < nanos_per_sec() {
        nanos
    } else {
        nanos_per_sec() - 1
    };
    let s: int = if after_epoch {
        secs
    } else if ns == 0 {
        -secs
    } else {
        -secs - 1
    };
    let n: int = if after_epoch || ns == 0 {
        ns
    } else {
        nanos_per_sec() - ns
    };
    if s < MIN_SECS {
        Instant { secs: MIN_SECS, nanos: 0 }
    } else if s > MAX_SECS {
        Instant { secs: MAX_SECS, nanos: 0 }
    } else {
        Instant { secs: s as i64, nanos: n as u32 }
    }
}

/// The instant an RFC 3339 text stands for, where chrono reads one that lies in years
/// 0 to 9999 with a nanosecond part below one second.
pub open spec fn instant_of(text: Seq<char>) -> Option<Instant> {
    match rfc3339_reading(text) {
        Some((secs, nanos)) => if MIN_SECS <= secs <= MAX_SECS && nanos < NANOS_PER_SEC {
            Some(Instant { secs, nanos })
        } else {
            None
        },
        None => None,
    }
}

impl Instant {
    /// Parses an RFC 3339 text; `None` where chrono refuses it or where the instant lies
    /// outside what `from_parts` accepts.
    pub fn parse_rfc3339(text: &str) -> (r: Option<Instant>)
        ensures
            r == instant_of(text@),
    {
        match parse_rfc3339_parts(text) {
            Some((secs, nanos)) => Instant::from_parts(secs, nanos),
            None => None,
        }
    }

    /// The RFC 3339 text of this instant in UTC.
    pub fn to_rfc3339(&self) -> (r: String)
        requires
            self.wf(),
        ensures
            r@ == rfc3339_text(self.secs, self.nanos),
    {
        format_rfc3339_parts(self.secs, self.nanos)
    }

    /// The instant of a clock reading (see `clock_instant`).
    pub fn from_clock(after_epoch: bool, secs: u64, nanos: u32) -> (r: Instant)
        ensures
            r == clock_instant(after_epoch, secs as int, nanos as int),
            r.wf(),
    {
        let ns: u32 = if nanos < NANOS_PER_SEC {
            nanos
        } else {
            NANOS_PER_SEC - 1
        };
        if after_epoch {
            if secs > MAX_SECS as u64 {
                Instant { secs: MAX_SECS, nanos: 0 }
            } else {
                Instant { secs: secs as i64, nanos: ns }
            }
        } else if ns == 0 {
            if secs > (-MIN_SECS) as u64 {
                Instant { secs: MIN_SECS, nanos: 0 }
            } else {
                Instant { secs: -(secs as i64), nanos: 0 }
            }
        } else {
            if secs >= (-MIN_SECS) as u64 {
                Instant { secs: MIN_SECS, nanos: 0 }
            } else {
                Instant { secs: -(secs as i64) - 1, nanos: NANOS_PER_SEC - ns }
            }
        }
    }

    /// The current instant of the system clock, through `from_clock`: always an instant
    /// of years 0 to 9999, whatever the clock reads.
    pub fn now() -> (r: Instant)
        ensures
            r.wf(),
    {
        let (after_epoch, secs, nanos) = clock_reading();
        Instant::from_clock(after_epoch, secs, nanos)
    }
}

} // verus!
