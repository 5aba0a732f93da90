//! Points in time and spans of time.

use chrono::DateTime;
use chrono::Utc;
use vstd::arithmetic::div_mod::lemma_mod_multiples_vanish;
use vstd::prelude::*;
use vstd::string::*;

verus! {

/// Nanoseconds in a second.
pub const NANOS_PER_SEC: u128 = 1_000_000_000;

/// The longest span: `u64::MAX` seconds and 999,999,999 nanoseconds.
pub const MAX_NANOS: u128 = 18_446_744_073_709_551_615_999_999_999;

/// A point in time: whole seconds since the Unix epoch, and nanoseconds, which
/// go above a second only within a leap second.
#[derive(Clone, Copy, Debug, PartialEq, Eq, Structural)]
pub struct Timestamp {
    pub secs: i64,
    pub nanos: u32,
}

/// Whether `a` is not after `b`.
pub open spec fn not_after(a: Timestamp, b: Timestamp) -> bool {
    a.secs < b.secs || (a.secs == b.secs && a.nanos <= b.nanos)
}

/// The second of the day.
pub open spec fn second_of_day(t: Timestamp) -> int {
    t.secs as int % 86_400
}

/// Whole seconds to add to the difference of two times for a leap second that
/// one of them is in.
pub open spec fn leap_adjustment(later: Timestamp, earlier: Timestamp) -> int {
    if second_of_day(later) > second_of_day(earlier) && earlier.nanos >= 1_000_000_000 {
        1
    } else if second_of_day(later) < second_of_day(earlier) && later.nanos >= 1_000_000_000 {
        -1
    } else {
        0
    }
}

/// Nanoseconds from `earlier` to `later`, negative where `later` comes first.
pub open spec fn nanos_between(later: Timestamp, earlier: Timestamp) -> int {
    (later.secs - earlier.secs + leap_adjustment(later, earlier)) * 1_000_000_000 + (later.nanos
        - earlier.nanos)
}

/// Nanoseconds from `earlier` to `later`, and none where `later` comes first.
pub open spec fn elapsed_nanos(later: Timestamp, earlier: Timestamp) -> nat {
    if nanos_between(later, earlier) > 0 {
        nanos_between(later, earlier) as nat
    } else {
        0
    }
}

/// Whether `a` is not after `b`.
pub fn is_not_after(a: Timestamp, b: Timestamp) -> (r: bool)
    ensures
        r == not_after(a, b),
{
    a.secs < b.secs || (a.secs == b.secs && a.nanos <= b.nanos)
}

fn second_of_day_of(t: Timestamp) -> (r: i128)
    ensures
        r == second_of_day(t),
{
    let shift: i128 = 86_400_000_000_000_000_000;
    let moved: i128 = t.secs as i128 + shift;
    proof {
        lemma_mod_multiples_vanish(1_000_000_000_000_000, t.secs as int, 86_400);
        assert(shift == 86_400 * 1_000_000_000_000_000);
    }
    moved % 86_400
}

/// Nanoseconds from `earlier` to `later`, and none where `later` comes first.
pub fn elapsed_nanos_of(later: Timestamp, earlier: Timestamp) -> (r: u128)
    ensures
        r == elapsed_nanos(later, earlier),
{
    let p: i128 = second_of_day_of(later);
    let q: i128 = second_of_day_of(earlier);
    let adjustment: i128 = if p > q && earlier.nanos >= 1_000_000_000 {
        1
    } else if p < q && later.nanos >= 1_000_000_000 {
        -1
    } else {
        0
    };
    let secs: i128 = later.secs as i128 - earlier.secs as i128 + adjustment;
    let nanos: i128 = secs * 1_000_000_000 + (later.nanos as i128 - earlier.nanos as i128);
    if nanos > 0 {
        nanos as u128
    } else {
        0
    }
}

/// A span of time, at most `u64::MAX` seconds and 999,999,999 nanoseconds.
#[derive(Clone, Copy, Debug, PartialEq, Eq)]
pub struct Duration {
    nanos: u128,
}

impl View for Duration {
    type V = nat;

    /// The nanoseconds of the span.
    closed spec fn view(&self) -> nat {
        self.nanos as nat
    }
}

impl Duration {
    #[verifier::type_invariant]
    closed spec fn bounded(&self) -> bool {
        self.nanos <= MAX_NANOS
    }

    pub fn zero() -> (r: Self)
        ensures
            r@ == 0,
    {
        Duration { nanos: 0 }
    }

    /// The longest span.
    pub fn longest() -> (r: Self)
        ensures
            r@ == MAX_NANOS,
    {
        Duration { nanos: MAX_NANOS }
    }

    pub fn from_secs(secs: u64) -> (r: Self)
        ensures
            r@ == secs * 1_000_000_000,
    {
        Duration { nanos: secs as u128 * 1_000_000_000 }
    }

    pub fn from_millis(millis: u64) -> (r: Self)
        ensures
            r@ == millis * 1_000_000,
    {
        Duration { nanos: millis as u128 * 1_000_000 }
    }

    /// The span of `nanos` nanoseconds, or the longest one.
    pub fn from_nanos(nanos: u128) -> (r: Self)
        ensures
            r@ == if nanos <= MAX_NANOS {
                nanos
            } else {
                MAX_NANOS
            },
    {
        if nanos <= MAX_NANOS {
            Duration { nanos }
        } else {
            Duration { nanos: MAX_NANOS }
        }
    }

    /// The nanoseconds of the span.
    pub fn as_nanos(&self) -> (r: u128)
        ensures
            r == self@,
            r <= MAX_NANOS,
    {
        proof {
            use_type_invariant(self);
        }
        self.nanos
    }

    pub fn is_zero(&self) -> (r: bool)
        ensures
            r == (self@ == 0),
    {
        self.nanos == 0
    }

    pub fn is_shorter(&self, other: &Duration) -> (r: bool)
        ensures
            r == (self@ < other@),
    {
        self.nanos < other.nanos
    }

    /// The shorter of two spans.
    pub fn shorter(self, other: Duration) -> (r: Self)
        ensures
            r@ == if self@ <= other@ {
                self@
            } else {
                other@
            },
    {
        if self.nanos <= other.nanos {
            self
        } else {
            other
        }
    }

    /// What is left of this span after `other`, and nothing where `other` is
    /// longer.
    pub fn saturating_sub(self, other: Duration) -> (r: Self)
        ensures
            r@ == if self@ >= other@ {
                (self@ - other@) as nat
            } else {
                0
            },
    {
        proof {
            use_type_invariant(&self);
        }
        if self.nanos >= other.nanos {
            Duration { nanos: self.nanos - other.nanos }
        } else {
            Duration { nanos: 0 }
        }
    }

    /// The sum of two spans, or the longest one.
    pub fn saturating_add(self, other: Duration) -> (r: Self)
        ensures
            r@ == if self@ + other@ <= MAX_NANOS {
                self@ + other@
            } else {
                MAX_NANOS as nat
            },
    {
        proof {
            use_type_invariant(&self);
            use_type_invariant(&other);
        }
        Duration::from_nanos(self.nanos + other.nanos)
    }

    /// This span `times` times, or the longest one.
    pub fn saturating_mul(self, times: u32) -> (r: Self)
        ensures
            r@ == if self@ * times <= MAX_NANOS {
                self@ * times
            } else {
                MAX_NANOS as int
            },
    {
        proof {
            use_type_invariant(&self);
            assert(self.nanos * times <= MAX_NANOS * u32::MAX) by (nonlinear_arith)
                requires
                    self.nanos <= MAX_NANOS,
                    times <= u32::MAX,
            ;
        }
        Duration::from_nanos(self.nanos * times as u128)
    }
}

/// The point in time that `text` writes in RFC 3339, as seconds and
/// nanoseconds.
pub uninterp spec fn rfc3339_time(text: Seq<char>) -> Option<(i64, u32)>;

/// The RFC 3339 text of a point in time in UTC, where there is one.
pub uninterp spec fn rfc3339_text(secs: i64, nanos: u32) -> Option<Seq<char>>;

/// `chrono::DateTime::parse_from_rfc3339`: the point in time that `text`
/// writes, which depends on nothing else; none where it is not RFC 3339.
#[verifier::external_body]
fn read_rfc3339(text: &str) -> (r: Option<(i64, u32)>)
    ensures
        r == rfc3339_time(text@),
{
    match DateTime::parse_from_rfc3339(text) {
        Ok(t) => Some((t.timestamp(), t.timestamp_subsec_nanos())),
        Err(_) => None,
    }
}

/// `chrono::DateTime::to_rfc3339` of a UTC time: its text, which depends on
/// nothing else; none where chrono has no such time.
#[verifier::external_body]
fn write_rfc3339(secs: i64, nanos: u32) -> (r: Option<String>)
    ensures
        match r {
            Some(s) => rfc3339_text(secs, nanos) == Some(s@),
            None => rfc3339_text(secs, nanos) is None,
        },
{
    DateTime::<Utc>::from_timestamp(secs, nanos).map(|t| t.to_rfc3339())
}

impl Timestamp {
    /// The point in time that `text` writes in RFC 3339.
    pub fn parse_rfc3339(text: &str) -> (r: Option<Timestamp>)
        ensures
            match r {
                Some(t) => rfc3339_time(text@) == Some((t.secs, t.nanos)),
                None => rfc3339_time(text@) is None,
            },
    {
        match read_rfc3339(text) {
            Some((secs, nanos)) => Some(Timestamp { secs, nanos }),
            None => None,
        }
    }

    /// The RFC 3339 text of this point in time.
    pub fn to_rfc3339(&self) -> (r: Option<String>)
        ensures
            match r {
                Some(s) => rfc3339_text(self.secs, self.nanos) == Some(s@),
                None => rfc3339_text(self.secs, self.nanos) is None,
            },
    {
        write_rfc3339(self.secs, self.nanos)
    }
}

/// Away from leap seconds, the time between two stamps is the difference of
/// their nanoseconds, and none has elapsed up to an earlier stamp.
pub proof fn time_is_counted_in_nanoseconds(a: Timestamp, b: Timestamp, r: u128)
    requires
        a.nanos < 1_000_000_000,
        b.nanos < 1_000_000_000,
        call_ensures(elapsed_nanos_of, (a, b), r),
    ensures
        ({
            let x = a.secs * 1_000_000_000 + a.nanos;
            let y = b.secs * 1_000_000_000 + b.nanos;
            &&& x >= y ==> r == x - y
            &&& x <= y ==> r == 0
            &&& not_after(a, b) <==> x <= y
        }),
{
}

/// Time is in one order.
pub proof fn time_is_in_one_order(a: Timestamp, b: Timestamp, c: Timestamp)
    ensures
        not_after(a, a),
        not_after(a, b) || not_after(b, a),
        not_after(a, b) && not_after(b, a) ==> a == b,
        not_after(a, b) && not_after(b, c) ==> not_after(a, c),
{
}

/// What is taken from a duration and what is left make it up, and what is added
/// is there, as far as a duration can say.
pub proof fn durations_add_up(
    a: Duration,
    b: Duration,
    sum: Duration,
    rest: Duration,
    least: Duration,
)
    requires
        call_ensures(Duration::saturating_add, (a, b), sum),
        call_ensures(Duration::saturating_sub, (sum, b), rest),
        call_ensures(Duration::shorter, (a, b), least),
    ensures
        a@ + b@ <= MAX_NANOS ==> sum@ == a@ + b@ && rest@ == a@,
        a@ + b@ > MAX_NANOS ==> sum@ == MAX_NANOS,
        least@ <= a@ && least@ <= b@ && (least@ == a@ || least@ == b@),
{
}

} // verus!
