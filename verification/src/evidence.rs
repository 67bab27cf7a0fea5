//! Derived values with what qualifies them: coverage, quality, and provenance. A value
//! that cannot be derived names what is missing instead of falling back to zero.

use crate::domain::{Credits, Interval, PercentagePoints};
use crate::ids::WindowCalibrationId;
use crate::sets::TextSet;
use vstd::prelude::*;

verus! {

/// Whether the evidence behind a value is complete.
#[derive(Debug, Clone, Copy, PartialEq, Eq, Structural)]
pub enum CoverageCompleteness {
    Complete,
    Partial,
    Unknown,
}

/// How a value was come by. Estimates name their methods and may carry an interval.
#[derive(Debug, Clone, PartialEq, Eq)]
pub enum EvidenceQuality<T> {
    Measured,
    Estimated { methods: TextSet, uncertainty: Option<Interval<T>> },
    Mixed { methods: TextSet, uncertainty: Option<Interval<T>> },
}

impl<T> EvidenceQuality<T> {
    /// The methods behind an estimate.
    pub open spec fn method_names(self) -> Seq<Seq<char>> {
        match self {
            EvidenceQuality::Measured => Seq::empty(),
            EvidenceQuality::Estimated { methods, .. } => methods@,
            EvidenceQuality::Mixed { methods, .. } => methods@,
        }
    }

    /// The interval of an estimate, where it has one.
    pub open spec fn interval(self) -> Option<Interval<T>> {
        match self {
            EvidenceQuality::Measured => None,
            EvidenceQuality::Estimated { uncertainty, .. } => uncertainty,
            EvidenceQuality::Mixed { uncertainty, .. } => uncertainty,
        }
    }
}

/// Where a value came from.
#[derive(Debug, Clone, PartialEq, Eq)]
pub struct Provenance {
    pub sources: TextSet,
}

impl Provenance {
    pub fn new(sources: TextSet) -> (provenance: Self)
        ensures
            provenance.sources@ == sources@,
    {
        Provenance { sources }
    }

    pub fn sources(&self) -> (sources: &TextSet)
        ensures
            sources@ == self.sources@,
    {
        &self.sources
    }
}

/// A value with what qualifies it.
#[derive(Debug, Clone, PartialEq, Eq)]
pub struct Qualified {
    pub value: Credits,
    pub coverage: CoverageCompleteness,
    pub quality: EvidenceQuality<Credits>,
    pub provenance: Provenance,
}

impl Qualified {
    pub fn new(
        value: Credits,
        coverage: CoverageCompleteness,
        quality: EvidenceQuality<Credits>,
        provenance: Provenance,
    ) -> (qualified: Self)
        ensures
            qualified.value == value,
            qualified.coverage == coverage,
            qualified.quality == quality,
            qualified.provenance == provenance,
    {
        Qualified { value, coverage, quality, provenance }
    }
}

/// Credits that were derived, or what is missing to derive them.
#[derive(Debug, Clone, PartialEq, Eq)]
pub enum Derivation {
    Available(Qualified),
    Unavailable { missing: TextSet, provenance: Provenance },
}

impl Derivation {
    /// Where the credits, or the refusal, came from.
    pub open spec fn source_names(self) -> Seq<Seq<char>> {
        match self {
            Derivation::Available(qualified) => qualified.provenance.sources@,
            Derivation::Unavailable { provenance, .. } => provenance.sources@,
        }
    }

    /// A refusal; it names at least one missing fact.
    pub fn unavailable(missing: TextSet, provenance: Provenance) -> (refusal: Option<Self>)
        ensures
            match refusal {
                Some(r) => missing@.len() > 0 && r == (Derivation::Unavailable {
                    missing,
                    provenance,
                }),
                None => missing@.len() == 0,
            },
    {
        if missing.is_empty() {
            None
        } else {
            Some(Derivation::Unavailable { missing, provenance })
        }
    }

    pub fn provenance(&self) -> (provenance: &Provenance)
        ensures
            provenance.sources@ == self.source_names(),
    {
        match self {
            Derivation::Available(qualified) => &qualified.provenance,
            Derivation::Unavailable { provenance, .. } => provenance,
        }
    }
}

/// Credits as movement of a quota window.
#[derive(Debug, Clone, PartialEq, Eq)]
pub struct WindowEquivalentValue {
    pub interval: Interval<PercentagePoints>,
    pub calibration_id: WindowCalibrationId,
    pub coverage: CoverageCompleteness,
    pub quality: EvidenceQuality<PercentagePoints>,
    pub provenance: Provenance,
}

/// Window movement that was derived, or what is missing to derive it.
#[derive(Debug, Clone, PartialEq, Eq)]
pub enum WindowEquivalentDerivation {
    Available(WindowEquivalentValue),
    Unavailable { missing: TextSet, provenance: Provenance },
}

impl WindowEquivalentDerivation {
    /// Where the movement, or the refusal, came from.
    pub open spec fn source_names(self) -> Seq<Seq<char>> {
        match self {
            WindowEquivalentDerivation::Available(value) => value.provenance.sources@,
            WindowEquivalentDerivation::Unavailable { provenance, .. } => provenance.sources@,
        }
    }

    /// What is missing, where the movement could not be derived.
    pub fn missing(&self) -> (missing: Option<&TextSet>)
        ensures
            match missing {
                Some(m) => *self is Unavailable && m@ == self->missing@,
                None => *self is Available,
            },
    {
        match self {
            WindowEquivalentDerivation::Available(_) => None,
            WindowEquivalentDerivation::Unavailable { missing, .. } => Some(missing),
        }
    }

    pub fn provenance(&self) -> (provenance: &Provenance)
        ensures
            provenance.sources@ == self.source_names(),
    {
        match self {
            WindowEquivalentDerivation::Available(value) => &value.provenance,
            WindowEquivalentDerivation::Unavailable { provenance, .. } => provenance,
        }
    }
}

} // verus!
