//! Moments, spans of time and the readings of the clock.

use vstd::prelude::*;

verus! {

/// Nanoseconds in one second.
pub const NANOS_PER_SEC: u32 = 1_000_000_000;

/// Seconds from the Unix epoch to the first moment a date can name.
pub const FIRST_MOMENT_SECS: i64 = -8_334_601_228_800;

/// Seconds from the Unix epoch to the last whole second a date can name.
pub const LAST_MOMENT_SECS: i64 = 8_210_266_876_799;

/// The longest signed span: as many milliseconds as an `i64` counts.
pub const LONGEST_DELTA_MILLIS: i64 = 9_223_372_036_854_775_807;

/// Nanoseconds counted by whole seconds and a rest.
pub open spec fn nanos_of(secs: int, nanos: int) -> int {
    secs * 1_000_000_000 + nanos
}

/// Nanoseconds of the longest unsigned span.
pub open spec fn longest_duration() -> int {
    nanos_of(u64::MAX as int, 999_999_999)
}

/// Whether a moment this many nanoseconds from the Unix epoch lies in the range of dates.
pub open spec fn is_dated(nanos: int) -> bool {
    nanos_of(FIRST_MOMENT_SECS as int, 0) <= nanos <= nanos_of(LAST_MOMENT_SECS as int, 999_999_999)
}

/// Whether a signed span of this many nanoseconds fits the range spans are counted in.
pub open spec fn is_delta(nanos: int) -> bool {
    -LONGEST_DELTA_MILLIS * 1_000_000 <= nanos <= LONGEST_DELTA_MILLIS * 1_000_000
}

/// A span of time that is never negative. Its view counts nanoseconds.
#[derive(Clone, Copy, Debug, PartialEq, Eq, PartialOrd, Ord)]
pub struct Duration {
    secs: u64,
    nanos: u32,
}

impl View for Duration {
    type V = int;

    closed spec fn view(&self) -> int {
        nanos_of(self.secs as int, self.nanos as int)
    }
}

impl Duration {
    #[verifier::type_invariant]
    closed spec fn is_normal(self) -> bool {
        self.nanos < NANOS_PER_SEC
    }

    /// The span of `secs` whole seconds and `nanos` nanoseconds, or `None` where the rest is a
    /// second or more.
    pub fn new(secs: u64, nanos: u32) -> (span: Option<Self>)
        ensures
            span is Some <==> nanos < NANOS_PER_SEC,
            span matches Some(span) ==> span@ == nanos_of(secs as int, nanos as int),
    {
        if nanos < NANOS_PER_SEC {
            Some(Duration { secs, nanos })
        } else {
            None
        }
    }

    /// The span of no length.
    pub fn zero() -> (span: Self)
        ensures
            span@ == 0,
    {
        Duration { secs: 0, nanos: 0 }
    }

    /// The longest span there is.
    pub fn longest() -> (span: Self)
        ensures
            span@ == longest_duration(),
    {
        Duration { secs: u64::MAX, nanos: 999_999_999 }
    }

    /// The span of `secs` seconds.
    pub fn from_secs(secs: u64) -> (span: Self)
        ensures
            span@ == secs * 1_000_000_000,
    {
        Duration { secs, nanos: 0 }
    }

    /// The span of `millis` milliseconds.
    pub fn from_millis(millis: u64) -> (span: Self)
        ensures
            span@ == millis * 1_000_000,
    {
        Duration { secs: millis / 1000, nanos: ((millis % 1000) as u32) * 1_000_000 }
    }

    /// The span of `nanos` nanoseconds.
    pub fn from_nanos(nanos: u64) -> (span: Self)
        ensures
            span@ == nanos,
    {
        Duration { secs: nanos / 1_000_000_000, nanos: (nanos % 1_000_000_000) as u32 }
    }

    /// The span of `total` nanoseconds, which has to be one a span can count.
    fn of_total(total: u128) -> (span: Self)
        requires
            total <= longest_duration(),
        ensures
            span@ == total,
    {
        Duration { secs: (total / 1_000_000_000) as u64, nanos: (total % 1_000_000_000) as u32 }
    }

    /// Whole seconds of the span.
    pub fn as_secs(&self) -> (secs: u64)
        ensures
            secs == self@ / 1_000_000_000,
    {
        proof {
            use_type_invariant(self);
        }
        self.secs
    }

    /// Nanoseconds the span has beyond its whole seconds.
    pub fn subsec_nanos(&self) -> (nanos: u32)
        ensures
            nanos == self@ % 1_000_000_000,
    {
        proof {
            use_type_invariant(self);
        }
        self.nanos
    }

    /// The whole span in nanoseconds.
    pub fn as_nanos(&self) -> (nanos: u128)
        ensures
            nanos == self@,
            nanos <= longest_duration(),
    {
        proof {
            use_type_invariant(self);
        }
        (self.secs as u128) * 1_000_000_000 + (self.nanos as u128)
    }

    /// Whole milliseconds of the span.
    pub fn as_millis(&self) -> (millis: u128)
        ensures
            millis == self@ / 1_000_000,
    {
        self.as_nanos() / 1_000_000
    }

    /// Whether the span has no length.
    pub fn is_zero(&self) -> (zero: bool)
        ensures
            zero == (self@ == 0),
            0 <= self@ <= longest_duration(),
    {
        self.as_nanos() == 0
    }

    /// Whether this span is shorter than `other`.
    pub fn is_below(&self, other: &Duration) -> (below: bool)
        ensures
            below == (self@ < other@),
            0 <= self@ <= longest_duration(),
            0 <= other@ <= longest_duration(),
    {
        self.as_nanos() < other.as_nanos()
    }

    /// The shorter of this span and `other`.
    pub fn shorter(self, other: Duration) -> (span: Self)
        ensures
            span == if other@ < self@ {
                other
            } else {
                self
            },
    {
        if other.is_below(&self) {
            other
        } else {
            self
        }
    }

    /// The sum of two spans, or `None` where no span is that long.
    pub fn checked_add(&self, other: &Duration) -> (sum: Option<Self>)
        ensures
            sum is Some <==> self@ + other@ <= longest_duration(),
            sum matches Some(sum) ==> sum@ == self@ + other@,
    {
        let total: u128 = self.as_nanos() + other.as_nanos();
        if total <= 18_446_744_073_709_551_615_999_999_999 {
            Some(Self::of_total(total))
        } else {
            None
        }
    }

    /// This span taken `factor` times, or `None` where no span is that long.
    pub fn checked_mul(&self, factor: u32) -> (product: Option<Self>)
        ensures
            product is Some <==> self@ * factor <= longest_duration(),
            product matches Some(product) ==> product@ == self@ * factor,
    {
        let span: u128 = self.as_nanos();
        let times: u128 = factor as u128;
        assert(0 <= span * times <= longest_duration() * u32::MAX) by (nonlinear_arith)
            requires
                0 <= span <= longest_duration(),
                0 <= times <= u32::MAX,
        ;
        let total: u128 = span * times;
        if total <= 18_446_744_073_709_551_615_999_999_999 {
            Some(Self::of_total(total))
        } else {
            None
        }
    }

    /// What is left of this span once `other` has passed, nothing where `other` is longer.
    pub fn saturating_sub(&self, other: &Duration) -> (rest: Self)
        ensures
            rest@ == if self@ < other@ {
                0
            } else {
                self@ - other@
            },
    {
        let whole: u128 = self.as_nanos();
        let passed: u128 = other.as_nanos();
        if whole < passed {
            Self::zero()
        } else {
            Self::of_total(whole - passed)
        }
    }
}

/// A span of time with a sign, as moments are moved by. Its view counts nanoseconds.
#[derive(Clone, Copy, Debug, PartialEq, Eq, PartialOrd, Ord)]
pub struct TimeDelta {
    secs: i64,
    nanos: u32,
}

impl View for TimeDelta {
    type V = int;

    closed spec fn view(&self) -> int {
        nanos_of(self.secs as int, self.nanos as int)
    }
}

/// Whole milliseconds in a signed span, the rest dropped towards zero.
pub open spec fn whole_millis(nanos: int) -> int {
    if nanos >= 0 {
        nanos / 1_000_000
    } else {
        -((-nanos) / 1_000_000)
    }
}

impl TimeDelta {
    #[verifier::type_invariant]
    closed spec fn is_normal(self) -> bool {
        self.nanos < NANOS_PER_SEC && is_delta(nanos_of(self.secs as int, self.nanos as int))
    }

    /// The span of no length.
    pub fn zero() -> (delta: Self)
        ensures
            delta@ == 0,
    {
        TimeDelta { secs: 0, nanos: 0 }
    }

    /// The span of `millis` milliseconds, or `None` for the one count that has no opposite.
    pub fn from_millis(millis: i64) -> (delta: Option<Self>)
        ensures
            delta is Some <==> millis != i64::MIN,
            delta matches Some(delta) ==> delta@ == millis * 1_000_000,
    {
        if millis == i64::MIN {
            return None;
        }
        let whole: i128 = millis as i128;
        let (secs, rest): (i128, i128) = if whole >= 0 {
            (whole / 1000, whole % 1000)
        } else {
            let back: i128 = (-whole + 999) / 1000;
            (-back, back * 1000 + whole)
        };
        Some(TimeDelta { secs: secs as i64, nanos: (rest as u32) * 1_000_000 })
    }

    /// The same span with a sign, or `None` where it is longer than signed spans reach.
    pub fn from_std(span: Duration) -> (delta: Option<Self>)
        ensures
            delta is Some <==> is_delta(span@),
            delta matches Some(delta) ==> delta@ == span@,
    {
        proof {
            use_type_invariant(&span);
        }
        match delta_from_std(span.secs, span.nanos) {
            Some((secs, nanos)) => Some(TimeDelta { secs, nanos }),
            None => None,
        }
    }

    /// Whole milliseconds of the span, the rest dropped towards zero.
    pub fn num_milliseconds(&self) -> (millis: i64)
        ensures
            millis == whole_millis(self@),
    {
        proof {
            use_type_invariant(self);
        }
        delta_millis(self.secs, self.nanos)
    }
}

/// A moment of universal time. Its view counts nanoseconds from the Unix epoch.
#[derive(Clone, Copy, Debug, PartialEq, Eq, PartialOrd, Ord)]
pub struct Moment {
    secs: i64,
    nanos: u32,
}

impl View for Moment {
    type V = int;

    closed spec fn view(&self) -> int {
        nanos_of(self.secs as int, self.nanos as int)
    }
}

/// The view of a moment that may be unset.
pub open spec fn at(moment: Option<Moment>) -> Option<int> {
    match moment {
        Some(moment) => Some(moment@),
        None => None,
    }
}

/// The view of a span that may be unset.
pub open spec fn length(span: Option<Duration>) -> Option<int> {
    match span {
        Some(span) => Some(span@),
        None => None,
    }
}

impl Moment {
    #[verifier::type_invariant]
    closed spec fn is_normal(self) -> bool {
        self.nanos < NANOS_PER_SEC && is_dated(nanos_of(self.secs as int, self.nanos as int))
    }

    /// The moment `secs` seconds and `nanos` nanoseconds from the Unix epoch, or `None` where no
    /// date names it or where the rest is a second or more.
    pub fn from_timestamp(secs: i64, nanos: u32) -> (moment: Option<Self>)
        ensures
            moment is Some <==> nanos < NANOS_PER_SEC && is_dated(
                nanos_of(secs as int, nanos as int),
            ),
            moment matches Some(moment) ==> moment@ == nanos_of(secs as int, nanos as int),
    {
        if nanos < NANOS_PER_SEC && FIRST_MOMENT_SECS <= secs && secs <= LAST_MOMENT_SECS {
            Some(Moment { secs, nanos })
        } else {
            None
        }
    }

    /// Reads the clock.
    pub fn now() -> (moment: Self)
        ensures
            is_dated(moment@),
    {
        let (secs, nanos) = clock_reading();
        Moment { secs, nanos }
    }

    /// Whole seconds from the Unix epoch, rounded down.
    pub fn timestamp(&self) -> (secs: i64)
        ensures
            secs == self@ / 1_000_000_000,
    {
        proof {
            use_type_invariant(self);
        }
        self.secs
    }

    /// Nanoseconds the moment lies beyond its whole seconds.
    pub fn subsec_nanos(&self) -> (nanos: u32)
        ensures
            nanos == self@ % 1_000_000_000,
    {
        proof {
            use_type_invariant(self);
        }
        self.nanos
    }

    /// Whether this moment comes after `other`.
    pub fn is_after(&self, other: &Moment) -> (after: bool)
        ensures
            after == (self@ > other@),
    {
        proof {
            use_type_invariant(self);
            use_type_invariant(other);
        }
        self.secs > other.secs || (self.secs == other.secs && self.nanos > other.nanos)
    }

    /// The earlier of this moment and `other`.
    pub fn earlier(self, other: Moment) -> (moment: Self)
        ensures
            moment == if self@ > other@ {
                other
            } else {
                self
            },
    {
        if self.is_after(&other) {
            other
        } else {
            self
        }
    }

    /// The moment `delta` away from this one, or `None` where no date names it.
    pub fn checked_add_signed(&self, delta: TimeDelta) -> (moment: Option<Self>)
        ensures
            moment is Some <==> is_dated(self@ + delta@),
            moment matches Some(moment) ==> moment@ == self@ + delta@,
    {
        proof {
            use_type_invariant(self);
            use_type_invariant(&delta);
        }
        match moved_moment(self.secs, self.nanos, delta.secs, delta.nanos) {
            Some((secs, nanos)) => Some(Moment { secs, nanos }),
            None => None,
        }
    }

    /// How long after `earlier` this moment comes, or `None` where it comes before it.
    pub fn duration_since(&self, earlier: &Moment) -> (span: Option<Duration>)
        ensures
            span is Some <==> self@ >= earlier@,
            span matches Some(span) ==> span@ == self@ - earlier@,
    {
        proof {
            use_type_invariant(self);
            use_type_invariant(earlier);
        }
        match elapsed(self.secs, self.nanos, earlier.secs, earlier.nanos) {
            Some((secs, nanos)) => Some(Duration { secs, nanos }),
            None => None,
        }
    }

    /// How long after `earlier` this moment comes, nothing where it comes before it.
    pub fn saturating_duration_since(&self, earlier: &Moment) -> (span: Duration)
        ensures
            span@ == if self@ < earlier@ {
                0
            } else {
                self@ - earlier@
            },
    {
        match self.duration_since(earlier) {
            Some(span) => span,
            None => Duration::zero(),
        }
    }

    /// The moment as people read it, such as `2030-01-02 03:04:05 UTC`.
    pub fn to_text(&self) -> (text: String)
        ensures
            text@ == moment_text(self@),
    {
        proof {
            use_type_invariant(self);
        }
        display_moment(self.secs, self.nanos)
    }

    /// The moment as a log prints it, such as `2030-01-02T03:04:05Z`.
    pub fn to_debug_text(&self) -> (text: String)
        ensures
            text@ == moment_debug_text(self@),
    {
        proof {
            use_type_invariant(self);
        }
        debug_moment(self.secs, self.nanos)
    }
}

/// What `chrono` displays for the moment this many nanoseconds from the Unix epoch.
pub uninterp spec fn moment_text(nanos: int) -> Seq<char>;

/// What `chrono` prints for debugging for the moment this many nanoseconds from the Unix epoch.
pub uninterp spec fn moment_debug_text(nanos: int) -> Seq<char>;

/// `chrono::TimeDelta::from_std`: an unsigned span converts exactly as long as it is no longer
/// than the longest signed one, and keeps its length.
#[verifier::external_body]
fn delta_from_std(secs: u64, nanos: u32) -> (delta: Option<(i64, u32)>)
    requires
        nanos < NANOS_PER_SEC,
    ensures
        delta is Some <==> is_delta(nanos_of(secs as int, nanos as int)),
        delta matches Some((delta_secs, delta_nanos)) ==> delta_secs == secs && delta_nanos
            == nanos,
{
    match chrono::TimeDelta::from_std(std::time::Duration::new(secs, nanos)) {
        Ok(delta) => Some((delta.num_seconds(), delta.subsec_nanos() as u32)),
        Err(_) => None,
    }
}

/// `chrono::TimeDelta::num_milliseconds`: whole milliseconds of a signed span, the rest dropped
/// towards zero.
#[verifier::external_body]
fn delta_millis(secs: i64, nanos: u32) -> (millis: i64)
    requires
        nanos < NANOS_PER_SEC,
        is_delta(nanos_of(secs as int, nanos as int)),
    ensures
        millis == whole_millis(nanos_of(secs as int, nanos as int)),
{
    chrono::TimeDelta::new(secs, nanos).unwrap().num_milliseconds()
}

/// `chrono::Utc::now`: a reading of the system clock. It names a date, and nothing else is known of
/// it. The call panics on a machine whose clock stands before the Unix epoch or past every date.
#[verifier::external_body]
fn clock_reading() -> (reading: (i64, u32))
    ensures
        FIRST_MOMENT_SECS <= reading.0 <= LAST_MOMENT_SECS,
        reading.1 < NANOS_PER_SEC,
{
    let now = chrono::Utc::now();
    (now.timestamp(), now.timestamp_subsec_nanos())
}

/// `chrono::DateTime::checked_add_signed`: the moment a signed span away, which exists exactly
/// where the sum lies in the range of dates.
#[verifier::external_body]
fn moved_moment(secs: i64, nanos: u32, delta_secs: i64, delta_nanos: u32) -> (moved: Option<
    (i64, u32),
>)
    requires
        nanos < NANOS_PER_SEC,
        delta_nanos < NANOS_PER_SEC,
        is_dated(nanos_of(secs as int, nanos as int)),
        is_delta(nanos_of(delta_secs as int, delta_nanos as int)),
    ensures
        moved is Some <==> is_dated(
            nanos_of(secs as int, nanos as int) + nanos_of(delta_secs as int, delta_nanos as int),
        ),
        moved matches Some((moved_secs, moved_nanos)) ==> moved_nanos < NANOS_PER_SEC && nanos_of(
            moved_secs as int,
            moved_nanos as int,
        ) == nanos_of(secs as int, nanos as int) + nanos_of(delta_secs as int, delta_nanos as int),
{
    let delta = chrono::TimeDelta::new(delta_secs, delta_nanos).unwrap();
    let moment = chrono::DateTime::<chrono::Utc>::from_timestamp(secs, nanos).unwrap();
    match moment.checked_add_signed(delta) {
        Some(moved) => Some((moved.timestamp(), moved.timestamp_subsec_nanos())),
        None => None,
    }
}

/// `chrono::DateTime::signed_duration_since`, read through `TimeDelta::to_std`: the time between
/// two moments, which has an unsigned form exactly where the first is not before the second.
#[verifier::external_body]
fn elapsed(secs: i64, nanos: u32, since_secs: i64, since_nanos: u32) -> (span: Option<(u64, u32)>)
    requires
        nanos < NANOS_PER_SEC,
        since_nanos < NANOS_PER_SEC,
        is_dated(nanos_of(secs as int, nanos as int)),
        is_dated(nanos_of(since_secs as int, since_nanos as int)),
    ensures
        span is Some <==> nanos_of(secs as int, nanos as int) >= nanos_of(
            since_secs as int,
            since_nanos as int,
        ),
        span matches Some((span_secs, span_nanos)) ==> span_nanos < NANOS_PER_SEC && nanos_of(
            span_secs as int,
            span_nanos as int,
        ) == nanos_of(secs as int, nanos as int) - nanos_of(since_secs as int, since_nanos as int),
{
    let moment = chrono::DateTime::<chrono::Utc>::from_timestamp(secs, nanos).unwrap();
    let since = chrono::DateTime::<chrono::Utc>::from_timestamp(since_secs, since_nanos).unwrap();
    match moment.signed_duration_since(since).to_std() {
        Ok(span) => Some((span.as_secs(), span.subsec_nanos())),
        Err(_) => None,
    }
}

/// The `Display` of `chrono::DateTime<Utc>`, whose text depends on the moment alone.
#[verifier::external_body]
fn display_moment(secs: i64, nanos: u32) -> (text: String)
    requires
        nanos < NANOS_PER_SEC,
        is_dated(nanos_of(secs as int, nanos as int)),
    ensures
        text@ == moment_text(nanos_of(secs as int, nanos as int)),
{
    chrono::DateTime::<chrono::Utc>::from_timestamp(secs, nanos).unwrap().to_string()
}

/// The `Debug` of `chrono::DateTime<Utc>`, whose text depends on the moment alone.
#[verifier::external_body]
fn debug_moment(secs: i64, nanos: u32) -> (text: String)
    requires
        nanos < NANOS_PER_SEC,
        is_dated(nanos_of(secs as int, nanos as int)),
    ensures
        text@ == moment_debug_text(nanos_of(secs as int, nanos as int)),
{
    format!("{:?}", chrono::DateTime::<chrono::Utc>::from_timestamp(secs, nanos).unwrap())
}

} // verus!
