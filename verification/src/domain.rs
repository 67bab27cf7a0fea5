//! Units and identifiers. Each quantity is a type of its own, so that a duration
//! is never taken for a timestamp or a quota fraction for a count of credits.

use crate::text::same_text;
use vstd::prelude::*;

verus! {

/// A point in time, in nanoseconds since the Unix epoch.
#[derive(Debug, Clone, Copy, PartialEq, Eq, PartialOrd, Ord, Hash, Structural)]
pub struct UtcTimestamp {
    pub nanos: i64,
}

impl UtcTimestamp {
    pub fn from_unix_nanos(nanos: i64) -> (at: Self)
        ensures
            at.nanos == nanos,
    {
        UtcTimestamp { nanos }
    }

    pub fn unix_nanos(self) -> (nanos: i64)
        ensures
            nanos == self.nanos,
    {
        self.nanos
    }
}

/// A length of time, in nanoseconds.
#[derive(Debug, Clone, Copy, PartialEq, Eq, PartialOrd, Ord, Hash, Structural)]
pub struct MonotonicDuration {
    pub nanos: u64,
}

impl MonotonicDuration {
    pub fn from_nanos(nanos: u64) -> (duration: Self)
        ensures
            duration.nanos == nanos,
    {
        MonotonicDuration { nanos }
    }

    pub fn as_nanos(self) -> (nanos: u64)
        ensures
            nanos == self.nanos,
    {
        self.nanos
    }
}

/// The parts per million in a whole quota window.
pub const FULL_WINDOW_PPM: u32 = 1_000_000;

/// A fraction of a quota window, in parts per million of the whole window.
#[derive(Debug, Clone, Copy, PartialEq, Eq, PartialOrd, Ord, Hash, Structural)]
pub struct QuotaFractionPpm {
    ppm: u32,
}

impl View for QuotaFractionPpm {
    type V = int;

    closed spec fn view(&self) -> int {
        self.ppm as int
    }
}

impl QuotaFractionPpm {
    #[verifier::type_invariant]
    spec fn within_window(self) -> bool {
        self.ppm <= FULL_WINDOW_PPM
    }

    /// A fraction from nothing up to the whole window; anything else is no fraction.
    pub fn new(ppm: i32) -> (fraction: Option<Self>)
        ensures
            fraction is Some <==> 0 <= ppm <= FULL_WINDOW_PPM,
            fraction matches Some(f) ==> f@ == ppm,
    {
        if 0 <= ppm && ppm <= 1_000_000 {
            Some(QuotaFractionPpm { ppm: ppm as u32 })
        } else {
            None
        }
    }

    pub fn get(self) -> (ppm: u32)
        ensures
            ppm == self@,
            ppm <= FULL_WINDOW_PPM,
    {
        proof {
            use_type_invariant(&self);
        }
        self.ppm
    }
}

/// How much of a quota window is used up.
#[derive(Debug, Clone, Copy, PartialEq, Eq, PartialOrd, Ord, Hash, Structural)]
pub struct QuotaUsed {
    pub fraction: QuotaFractionPpm,
}

impl View for QuotaUsed {
    type V = int;

    open spec fn view(&self) -> int {
        self.fraction@
    }
}

impl QuotaUsed {
    pub fn new(fraction: QuotaFractionPpm) -> (used: Self)
        ensures
            used.fraction == fraction,
    {
        QuotaUsed { fraction }
    }

    pub fn as_ppm(self) -> (fraction: QuotaFractionPpm)
        ensures
            fraction == self.fraction,
    {
        self.fraction
    }
}

/// The smallest step in which a provider reports quota use. It is never zero.
#[derive(Debug, Clone, Copy, PartialEq, Eq, PartialOrd, Ord, Hash, Structural)]
pub struct ReportedResolution {
    step: QuotaFractionPpm,
}

impl View for ReportedResolution {
    type V = int;

    closed spec fn view(&self) -> int {
        self.step@
    }
}

impl ReportedResolution {
    #[verifier::type_invariant]
    spec fn not_zero(self) -> bool {
        self.step@ > 0
    }

    /// A resolution from a non-zero step.
    pub fn new(step: QuotaFractionPpm) -> (resolution: Option<Self>)
        ensures
            resolution is Some <==> step@ > 0,
            resolution matches Some(r) ==> r@ == step@,
    {
        if step.get() > 0 {
            Some(ReportedResolution { step })
        } else {
            None
        }
    }

    pub fn as_ppm(self) -> (step: QuotaFractionPpm)
        ensures
            step@ == self@,
            step@ > 0,
    {
        proof {
            use_type_invariant(&self);
        }
        self.step
    }
}

/// An amount of credits, in millionths of a credit.
#[derive(Debug, Clone, Copy, PartialEq, Eq, PartialOrd, Ord, Hash, Structural)]
pub struct Credits {
    pub micros: i64,
}

impl Credits {
    pub fn from_micros(micros: i64) -> (credits: Self)
        ensures
            credits.micros == micros,
    {
        Credits { micros }
    }

    pub fn micros(self) -> (micros: i64)
        ensures
            micros == self.micros,
    {
        self.micros
    }
}

/// How many credits one percentage point of a window is worth, in millionths of a credit.
#[derive(Debug, Clone, Copy, PartialEq, Eq, PartialOrd, Ord, Hash, Structural)]
pub struct CreditsPerPercentagePoint {
    pub micros: i64,
}

impl CreditsPerPercentagePoint {
    pub fn from_micros_per_point(micros: i64) -> (coefficient: Self)
        ensures
            coefficient.micros == micros,
    {
        CreditsPerPercentagePoint { micros }
    }

    pub fn micros_per_point(self) -> (micros: i64)
        ensures
            micros == self.micros,
    {
        self.micros
    }
}

/// The most a window can move either way, in its native points.
pub const PERCENTAGE_POINTS_LIMIT: i32 = 1_000_000;

/// Movement of a quota window in its native points, of which a whole window has a
/// million.
#[derive(Debug, Clone, Copy, PartialEq, Eq, PartialOrd, Ord, Hash, Structural)]
pub struct PercentagePoints {
    points: i32,
}

impl View for PercentagePoints {
    type V = int;

    closed spec fn view(&self) -> int {
        self.points as int
    }
}

impl PercentagePoints {
    #[verifier::type_invariant]
    spec fn within_window(self) -> bool {
        -PERCENTAGE_POINTS_LIMIT <= self.points <= PERCENTAGE_POINTS_LIMIT
    }

    /// Movement of at most one whole window in either direction.
    pub fn new(points: i32) -> (movement: Option<Self>)
        ensures
            movement is Some <==> -PERCENTAGE_POINTS_LIMIT <= points <= PERCENTAGE_POINTS_LIMIT,
            movement matches Some(m) ==> m@ == points,
    {
        if -PERCENTAGE_POINTS_LIMIT <= points && points <= PERCENTAGE_POINTS_LIMIT {
            Some(PercentagePoints { points })
        } else {
            None
        }
    }

    pub fn get(self) -> (points: i32)
        ensures
            points == self@,
            -PERCENTAGE_POINTS_LIMIT <= points <= PERCENTAGE_POINTS_LIMIT,
    {
        proof {
            use_type_invariant(&self);
        }
        self.points
    }
}

/// A closed interval between two values.
#[derive(Debug, Clone, Copy, PartialEq, Eq, Structural)]
pub struct Interval<T> {
    pub lower: T,
    pub upper: T,
}

impl Interval<PercentagePoints> {
    /// An interval whose ends are in order.
    pub fn new(lower: PercentagePoints, upper: PercentagePoints) -> (interval: Option<Self>)
        ensures
            interval is Some <==> lower@ <= upper@,
            interval matches Some(i) ==> i.lower == lower && i.upper == upper,
    {
        if lower.get() <= upper.get() {
            Some(Interval { lower, upper })
        } else {
            None
        }
    }

    pub fn lower(self) -> (lower: PercentagePoints)
        ensures
            lower == self.lower,
    {
        self.lower
    }

    pub fn upper(self) -> (upper: PercentagePoints)
        ensures
            upper == self.upper,
    {
        self.upper
    }
}

impl Interval<Credits> {
    /// An interval whose ends are in order.
    pub fn new(lower: Credits, upper: Credits) -> (interval: Option<Self>)
        ensures
            interval is Some <==> lower.micros <= upper.micros,
            interval matches Some(i) ==> i.lower == lower && i.upper == upper,
    {
        if lower.micros() <= upper.micros() {
            Some(Interval { lower, upper })
        } else {
            None
        }
    }
}

/// How a provider rounds the quota use it reports.
#[derive(Debug, Clone, Copy, PartialEq, Eq, PartialOrd, Ord, Hash, Structural)]
pub enum QuantizationSemantics {
    Exact,
    RoundedToNearest,
    RoundedDown,
    RoundedUp,
    Unknown,
}

/// The classes of tokens that usage is counted in.
#[derive(Debug, Clone, Copy, PartialEq, Eq, PartialOrd, Ord, Hash, Structural)]
pub enum TokenKind {
    Input,
    Output,
    CacheRead,
    CacheWrite,
}

impl TokenKind {
    /// The name under which usage rows carry the class.
    pub open spec fn name(self) -> Seq<char> {
        match self {
            TokenKind::Input => "input"@,
            TokenKind::Output => "output"@,
            TokenKind::CacheRead => "cache_read"@,
            TokenKind::CacheWrite => "cache_write"@,
        }
    }

    pub fn label(self) -> (label: &'static str)
        ensures
            label@ == self.name(),
    {
        match self {
            TokenKind::Input => "input",
            TokenKind::Output => "output",
            TokenKind::CacheRead => "cache_read",
            TokenKind::CacheWrite => "cache_write",
        }
    }

    /// The class that a name stands for.
    pub open spec fn named(name: Seq<char>) -> Option<TokenKind> {
        if name == "input"@ {
            Some(TokenKind::Input)
        } else if name == "output"@ {
            Some(TokenKind::Output)
        } else if name == "cache_read"@ {
            Some(TokenKind::CacheRead)
        } else if name == "cache_write"@ {
            Some(TokenKind::CacheWrite)
        } else {
            None
        }
    }

    pub fn from_name(name: &str) -> (kind: Option<TokenKind>)
        ensures
            kind == TokenKind::named(name@),
    {
        if same_text(name, "input") {
            Some(TokenKind::Input)
        } else if same_text(name, "output") {
            Some(TokenKind::Output)
        } else if same_text(name, "cache_read") {
            Some(TokenKind::CacheRead)
        } else if same_text(name, "cache_write") {
            Some(TokenKind::CacheWrite)
        } else {
            None
        }
    }
}

/// Every class is found again under its own name.
pub proof fn law_token_names_read_back(kind: TokenKind)
    ensures
        TokenKind::named(kind.name()) == Some(kind),
{
    reveal_strlit("input");
    reveal_strlit("output");
    reveal_strlit("cache_read");
    reveal_strlit("cache_write");
    assert("input"@.len() == 5);
    assert("output"@.len() == 6);
    assert("cache_read"@.len() == 10);
    assert("cache_write"@.len() == 11);
}

/// Token counts by class, where every class is known.
#[derive(Debug, Clone, Copy, PartialEq, Eq, Structural)]
pub struct KnownTokenVector {
    pub input: u64,
    pub output: u64,
    pub cache_read: u64,
    pub cache_write: u64,
}

impl KnownTokenVector {
    /// The count of one class.
    pub open spec fn count(self, kind: TokenKind) -> u64 {
        match kind {
            TokenKind::Input => self.input,
            TokenKind::Output => self.output,
            TokenKind::CacheRead => self.cache_read,
            TokenKind::CacheWrite => self.cache_write,
        }
    }

    pub fn new(input: u64, output: u64, cache_read: u64, cache_write: u64) -> (tokens: Self)
        ensures
            tokens.input == input,
            tokens.output == output,
            tokens.cache_read == cache_read,
            tokens.cache_write == cache_write,
    {
        KnownTokenVector { input, output, cache_read, cache_write }
    }

    pub fn get(self, kind: TokenKind) -> (count: u64)
        ensures
            count == self.count(kind),
    {
        match kind {
            TokenKind::Input => self.input,
            TokenKind::Output => self.output,
            TokenKind::CacheRead => self.cache_read,
            TokenKind::CacheWrite => self.cache_write,
        }
    }

    /// The counts with more tokens of one class.
    pub fn plus(self, kind: TokenKind, more: u64) -> (tokens: Self)
        requires
            self.count(kind) + more <= u64::MAX,
        ensures
            forall|k: TokenKind| #[trigger]
                tokens.count(k) == if k == kind {
                    self.count(k) + more
                } else {
                    self.count(k) as int
                },
    {
        match kind {
            TokenKind::Input => KnownTokenVector { input: self.input + more, ..self },
            TokenKind::Output => KnownTokenVector { output: self.output + more, ..self },
            TokenKind::CacheRead => KnownTokenVector { cache_read: self.cache_read + more, ..self },
            TokenKind::CacheWrite => KnownTokenVector {
                cache_write: self.cache_write + more,
                ..self
            },
        }
    }
}

/// A name stands for a class exactly where it is that class's own.
pub proof fn law_token_classes_have_their_own_names(name: Seq<char>, kind: TokenKind)
    ensures
        TokenKind::named(name) == Some(kind) <==> name == match kind {
            TokenKind::Input => "input"@,
            TokenKind::Output => "output"@,
            TokenKind::CacheRead => "cache_read"@,
            TokenKind::CacheWrite => "cache_write"@,
        },
{
    law_token_names_read_back(kind);
}

/// Each class has its own count.
pub proof fn law_each_class_has_its_own_count(tokens: KnownTokenVector)
    ensures
        tokens.count(TokenKind::Input) == tokens.input,
        tokens.count(TokenKind::Output) == tokens.output,
        tokens.count(TokenKind::CacheRead) == tokens.cache_read,
        tokens.count(TokenKind::CacheWrite) == tokens.cache_write,
{
}

} // verus!
