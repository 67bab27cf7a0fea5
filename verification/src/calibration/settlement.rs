//! Settled-boundary detection for series of meter readings.
//!
//! A provider may keep catching up after controlled work stops. A boundary is
//! therefore the end of a recorded plateau, not a single reading: enough readings,
//! far enough apart, over a long enough span, that differ by less than the
//! criterion tolerates. The caller provides the readings, a coverage fact and the
//! policy, and receives a settled boundary or an incomplete outcome.

use crate::domain::{MonotonicDuration, QuotaUsed, ReportedResolution, UtcTimestamp};
use crate::order::{
    arranged, lemma_placed_by_insertion, lemma_stable_order, positions, stable_order,
    total_preorder,
};
use crate::text::{blank, is_blank, trim, trimmed, white_space};
use vstd::prelude::*;

verus! {

pub const DEFAULT_SAMPLING_INTERVAL_NANOS: u64 = 300_000_000_000;

pub const DEFAULT_REQUIRED_OBSERVATIONS: u32 = 3;

pub const DEFAULT_MINIMUM_SPAN_NANOS: u64 = 600_000_000_000;

pub const DEFAULT_MAXIMUM_CHANGE_RESOLUTION_UNITS: u32 = 0;

pub const DEFAULT_MAXIMUM_SETTLEMENT_WINDOW_NANOS: u64 = 3_600_000_000_000;

/// Whether the detector looks for the boundary before the work or after it.
#[derive(Debug, Clone, Copy, PartialEq, Eq, Structural)]
pub enum SettlementRole {
    Baseline,
    Terminal,
}

/// Why a settlement policy was refused.
#[derive(Debug, Clone, PartialEq, Eq, Structural)]
pub enum SettlementPolicyError {
    EmptyVersion,
    TooFewObservations,
    ZeroSamplingInterval,
    ZeroMinimumSpan,
    ZeroMaximumSettlementWindow,
    SettlementWindowBeforeMinimumSpan,
    SharedCriteriaReasonRequired,
    EmptySharedCriteriaReason,
}

impl SettlementPolicyError {
    /// The sentence shown for this refusal.
    pub open spec fn text(self) -> Seq<char> {
        match self {
            SettlementPolicyError::EmptyVersion => "settlement policy version cannot be empty"@,
            SettlementPolicyError::TooFewObservations =>
                "settlement criterion requires at least two observations"@,
            SettlementPolicyError::ZeroSamplingInterval =>
                "settlement sampling interval must be non-zero"@,
            SettlementPolicyError::ZeroMinimumSpan => "settlement minimum span must be non-zero"@,
            SettlementPolicyError::ZeroMaximumSettlementWindow =>
                "settlement maximum window must be non-zero"@,
            SettlementPolicyError::SettlementWindowBeforeMinimumSpan =>
                "settlement maximum window must cover the minimum span"@,
            SettlementPolicyError::SharedCriteriaReasonRequired =>
                "equal baseline and terminal criteria require a sharing reason"@,
            SettlementPolicyError::EmptySharedCriteriaReason =>
                "settlement sharing reason cannot be empty"@,
        }
    }

    /// Renders the refusal as a sentence.
    pub fn message(&self) -> (message: String)
        ensures
            message@ == self.text(),
    {
        match self {
            SettlementPolicyError::EmptyVersion => "settlement policy version cannot be empty",
            SettlementPolicyError::TooFewObservations =>
                "settlement criterion requires at least two observations",
            SettlementPolicyError::ZeroSamplingInterval =>
                "settlement sampling interval must be non-zero",
            SettlementPolicyError::ZeroMinimumSpan => "settlement minimum span must be non-zero",
            SettlementPolicyError::ZeroMaximumSettlementWindow =>
                "settlement maximum window must be non-zero",
            SettlementPolicyError::SettlementWindowBeforeMinimumSpan =>
                "settlement maximum window must cover the minimum span",
            SettlementPolicyError::SharedCriteriaReasonRequired =>
                "equal baseline and terminal criteria require a sharing reason",
            SettlementPolicyError::EmptySharedCriteriaReason =>
                "settlement sharing reason cannot be empty",
        }.to_owned()
    }
}

/// What a plateau must satisfy at one boundary of an experiment.
#[derive(Debug, Clone, Copy, PartialEq, Eq, Structural)]
pub struct SettlementCriterion {
    sampling_interval: MonotonicDuration,
    required_observations: u32,
    minimum_span: MonotonicDuration,
    maximum_change_resolution_units: u32,
    maximum_settlement_window: MonotonicDuration,
    reported_resolution: ReportedResolution,
}

/// The first rule that the parts of a criterion break, in the order they are tested.
pub open spec fn criterion_fault(
    sampling_interval: MonotonicDuration,
    required_observations: u32,
    minimum_span: MonotonicDuration,
    maximum_settlement_window: MonotonicDuration,
) -> Option<SettlementPolicyError> {
    if required_observations < 2 {
        Some(SettlementPolicyError::TooFewObservations)
    } else if sampling_interval.nanos == 0 {
        Some(SettlementPolicyError::ZeroSamplingInterval)
    } else if minimum_span.nanos == 0 {
        Some(SettlementPolicyError::ZeroMinimumSpan)
    } else if maximum_settlement_window.nanos == 0 {
        Some(SettlementPolicyError::ZeroMaximumSettlementWindow)
    } else if maximum_settlement_window.nanos < minimum_span.nanos {
        Some(SettlementPolicyError::SettlementWindowBeforeMinimumSpan)
    } else {
        None
    }
}

impl SettlementCriterion {
    #[verifier::type_invariant]
    spec fn sound(self) -> bool {
        criterion_fault(
            self.sampling_interval,
            self.required_observations,
            self.minimum_span,
            self.maximum_settlement_window,
        ) is None
    }

    /// The least time between neighbouring readings of a plateau.
    pub closed spec fn spacing(self) -> MonotonicDuration {
        self.sampling_interval
    }

    /// How many readings a plateau has.
    pub closed spec fn count(self) -> u32 {
        self.required_observations
    }

    /// The least time from the first reading of a plateau to its last.
    pub closed spec fn span(self) -> MonotonicDuration {
        self.minimum_span
    }

    /// How many whole resolution steps two readings of a plateau may differ by.
    pub closed spec fn tolerance(self) -> u32 {
        self.maximum_change_resolution_units
    }

    /// How long after the start of the series a plateau may still end.
    pub closed spec fn window(self) -> MonotonicDuration {
        self.maximum_settlement_window
    }

    /// The resolution every reading of a plateau must have been reported in.
    pub closed spec fn resolution(self) -> ReportedResolution {
        self.reported_resolution
    }

    /// Builds a criterion, refusing parts that would make a plateau claim meaningless.
    pub fn new(
        sampling_interval: MonotonicDuration,
        required_observations: u32,
        minimum_span: MonotonicDuration,
        maximum_change_resolution_units: u32,
        maximum_settlement_window: MonotonicDuration,
        reported_resolution: ReportedResolution,
    ) -> (criterion: Result<Self, SettlementPolicyError>)
        ensures
            match criterion {
                Ok(c) => {
                    &&& criterion_fault(
                        sampling_interval,
                        required_observations,
                        minimum_span,
                        maximum_settlement_window,
                    ) is None
                    &&& c.spacing() == sampling_interval
                    &&& c.count() == required_observations
                    &&& c.span() == minimum_span
                    &&& c.tolerance() == maximum_change_resolution_units
                    &&& c.window() == maximum_settlement_window
                    &&& c.resolution() == reported_resolution
                },
                Err(e) => criterion_fault(
                    sampling_interval,
                    required_observations,
                    minimum_span,
                    maximum_settlement_window,
                ) == Some(e),
            },
    {
        if required_observations < 2 {
            return Err(SettlementPolicyError::TooFewObservations);
        }
        if sampling_interval.as_nanos() == 0 {
            return Err(SettlementPolicyError::ZeroSamplingInterval);
        }
        if minimum_span.as_nanos() == 0 {
            return Err(SettlementPolicyError::ZeroMinimumSpan);
        }
        if maximum_settlement_window.as_nanos() == 0 {
            return Err(SettlementPolicyError::ZeroMaximumSettlementWindow);
        }
        if maximum_settlement_window.as_nanos() < minimum_span.as_nanos() {
            return Err(SettlementPolicyError::SettlementWindowBeforeMinimumSpan);
        }
        Ok(
            SettlementCriterion {
                sampling_interval,
                required_observations,
                minimum_span,
                maximum_change_resolution_units,
                maximum_settlement_window,
                reported_resolution,
            },
        )
    }

    pub fn sampling_interval(self) -> (interval: MonotonicDuration)
        ensures
            interval == self.spacing(),
            interval.nanos > 0,
    {
        proof {
            use_type_invariant(&self);
        }
        self.sampling_interval
    }

    pub fn required_observations(self) -> (count: u32)
        ensures
            count == self.count(),
            count >= 2,
    {
        proof {
            use_type_invariant(&self);
        }
        self.required_observations
    }

    pub fn minimum_span(self) -> (span: MonotonicDuration)
        ensures
            span == self.span(),
            0 < span.nanos <= self.window().nanos,
    {
        proof {
            use_type_invariant(&self);
        }
        self.minimum_span
    }

    /// The most whole resolution steps allowed between any two readings of a plateau.
    /// Zero tolerates changes smaller than one step and nothing more.
    pub fn maximum_change_resolution_units(self) -> (units: u32)
        ensures
            units == self.tolerance(),
    {
        self.maximum_change_resolution_units
    }

    pub fn maximum_settlement_window(self) -> (window: MonotonicDuration)
        ensures
            window == self.window(),
    {
        self.maximum_settlement_window
    }

    /// The same value under the name callers use for a maximum window.
    pub fn maximum_window(self) -> (window: MonotonicDuration)
        ensures
            window == self.window(),
    {
        self.maximum_settlement_window()
    }

    pub fn reported_resolution(self) -> (resolution: ReportedResolution)
        ensures
            resolution == self.resolution(),
    {
        self.reported_resolution
    }
}

/// The criterion of the conservative default policy: three readings, five minutes
/// apart, spanning at least ten minutes, without one complete resolution step of
/// change, within sixty minutes.
pub closed spec fn conservative_criterion(resolution: ReportedResolution) -> SettlementCriterion {
    SettlementCriterion {
        sampling_interval: MonotonicDuration { nanos: DEFAULT_SAMPLING_INTERVAL_NANOS },
        required_observations: DEFAULT_REQUIRED_OBSERVATIONS,
        minimum_span: MonotonicDuration { nanos: DEFAULT_MINIMUM_SPAN_NANOS },
        maximum_change_resolution_units: DEFAULT_MAXIMUM_CHANGE_RESOLUTION_UNITS,
        maximum_settlement_window: MonotonicDuration {
            nanos: DEFAULT_MAXIMUM_SETTLEMENT_WINDOW_NANOS,
        },
        reported_resolution: resolution,
    }
}

/// The conservative criterion asks for the published defaults, at every resolution.
pub proof fn law_conservative_defaults_are_published(resolution: ReportedResolution)
    ensures
        conservative_criterion(resolution).spacing().nanos == DEFAULT_SAMPLING_INTERVAL_NANOS,
        conservative_criterion(resolution).count() == DEFAULT_REQUIRED_OBSERVATIONS,
        conservative_criterion(resolution).span().nanos == DEFAULT_MINIMUM_SPAN_NANOS,
        conservative_criterion(resolution).tolerance() == DEFAULT_MAXIMUM_CHANGE_RESOLUTION_UNITS,
        conservative_criterion(resolution).window().nanos
            == DEFAULT_MAXIMUM_SETTLEMENT_WINDOW_NANOS,
        conservative_criterion(resolution).resolution() == resolution,
{
}

/// The settlement policy recorded with one experiment.
#[derive(Debug, Clone, PartialEq, Eq)]
pub struct SettlementPolicy {
    version: String,
    baseline: SettlementCriterion,
    terminal: SettlementCriterion,
    shared_criteria_reason: Option<String>,
}

/// Whether a sharing reason was given that holds only white space.
pub open spec fn reason_is_blank(reason: Option<String>) -> bool {
    reason is Some && blank(reason->0@)
}

/// The first rule that the parts of a policy break, in the order they are tested.
pub open spec fn policy_fault(
    version: Seq<char>,
    baseline: SettlementCriterion,
    terminal: SettlementCriterion,
    shared_criteria_reason: Option<String>,
) -> Option<SettlementPolicyError> {
    if blank(version) {
        Some(SettlementPolicyError::EmptyVersion)
    } else if reason_is_blank(shared_criteria_reason) {
        Some(SettlementPolicyError::EmptySharedCriteriaReason)
    } else if baseline == terminal && shared_criteria_reason is None {
        Some(SettlementPolicyError::SharedCriteriaReasonRequired)
    } else {
        None
    }
}

impl SettlementPolicy {
    /// The recorded version.
    pub closed spec fn version_text(&self) -> Seq<char> {
        self.version@
    }

    /// The criterion recorded for a role.
    pub closed spec fn for_role(&self, role: SettlementRole) -> SettlementCriterion {
        match role {
            SettlementRole::Baseline => self.baseline,
            SettlementRole::Terminal => self.terminal,
        }
    }

    /// Why both roles share one criterion, where a reason was recorded.
    pub closed spec fn sharing_reason(&self) -> Option<Seq<char>> {
        match self.shared_criteria_reason {
            Some(reason) => Some(reason@),
            None => None,
        }
    }

    /// Builds a policy. Equal criteria need a stated reason, kept without the white
    /// space around it, because sharing a value is a decision that stays auditable.
    pub fn new(
        version: &str,
        baseline: SettlementCriterion,
        terminal: SettlementCriterion,
        shared_criteria_reason: Option<String>,
    ) -> (policy: Result<Self, SettlementPolicyError>)
        ensures
            match policy {
                Ok(p) => {
                    &&& policy_fault(version@, baseline, terminal, shared_criteria_reason) is None
                    &&& p.version_text() == version@
                    &&& p.for_role(SettlementRole::Baseline) == baseline
                    &&& p.for_role(SettlementRole::Terminal) == terminal
                    &&& p.sharing_reason() == match shared_criteria_reason {
                        Some(reason) => Some(trim(reason@)),
                        None => None,
                    }
                },
                Err(e) => policy_fault(version@, baseline, terminal, shared_criteria_reason)
                    == Some(e),
            },
    {
        if is_blank(version) {
            return Err(SettlementPolicyError::EmptyVersion);
        }
        let kept: Option<String> = match &shared_criteria_reason {
            Some(reason) => {
                if is_blank(reason.as_str()) {
                    return Err(SettlementPolicyError::EmptySharedCriteriaReason);
                }
                Some(trimmed(reason.as_str()))
            },
            None => None,
        };
        if baseline == terminal && kept.is_none() {
            return Err(SettlementPolicyError::SharedCriteriaReasonRequired);
        }
        Ok(
            SettlementPolicy {
                version: version.to_owned(),
                baseline,
                terminal,
                shared_criteria_reason: kept,
            },
        )
    }

    /// Three readings, five minutes apart, spanning at least ten minutes, without one
    /// complete resolution step of change, within sixty minutes; for both roles.
    pub fn conservative_default(reported_resolution: ReportedResolution) -> (policy: Self)
        ensures
            policy.version_text() == "settled-boundary-v1"@,
            policy.for_role(SettlementRole::Baseline) == conservative_criterion(
                reported_resolution,
            ),
            policy.for_role(SettlementRole::Terminal) == conservative_criterion(
                reported_resolution,
            ),
            policy.sharing_reason()
                == Some("baseline and terminal share the conservative provider-lag criterion"@),
    {
        let criterion: SettlementCriterion = SettlementCriterion {
            sampling_interval: MonotonicDuration::from_nanos(DEFAULT_SAMPLING_INTERVAL_NANOS),
            required_observations: DEFAULT_REQUIRED_OBSERVATIONS,
            minimum_span: MonotonicDuration::from_nanos(DEFAULT_MINIMUM_SPAN_NANOS),
            maximum_change_resolution_units: DEFAULT_MAXIMUM_CHANGE_RESOLUTION_UNITS,
            maximum_settlement_window: MonotonicDuration::from_nanos(
                DEFAULT_MAXIMUM_SETTLEMENT_WINDOW_NANOS,
            ),
            reported_resolution,
        };
        SettlementPolicy {
            version: "settled-boundary-v1".to_owned(),
            baseline: criterion,
            terminal: criterion,
            shared_criteria_reason: Some(
                "baseline and terminal share the conservative provider-lag criterion".to_owned(),
            ),
        }
    }

    /// The fixed default policy for a provider's reported resolution.
    pub fn default_for_resolution(reported_resolution: ReportedResolution) -> (policy: Self)
        ensures
            policy.version_text() == "settled-boundary-v1"@,
            policy.sharing_reason()
                == Some("baseline and terminal share the conservative provider-lag criterion"@),
            policy.for_role(SettlementRole::Baseline) == conservative_criterion(
                reported_resolution,
            ),
            policy.for_role(SettlementRole::Terminal) == conservative_criterion(
                reported_resolution,
            ),
    {
        Self::conservative_default(reported_resolution)
    }

    pub fn version(&self) -> (version: &str)
        ensures
            version@ == self.version_text(),
    {
        self.version.as_str()
    }

    pub fn baseline(&self) -> (criterion: SettlementCriterion)
        ensures
            criterion == self.for_role(SettlementRole::Baseline),
    {
        self.baseline
    }

    pub fn terminal(&self) -> (criterion: SettlementCriterion)
        ensures
            criterion == self.for_role(SettlementRole::Terminal),
    {
        self.terminal
    }

    pub fn shared_criteria_reason(&self) -> (reason: Option<&str>)
        ensures
            match reason {
                Some(text) => self.sharing_reason() == Some(text@),
                None => self.sharing_reason() is None,
            },
    {
        match &self.shared_criteria_reason {
            Some(reason) => Some(reason.as_str()),
            None => None,
        }
    }

    pub fn criterion(&self, role: SettlementRole) -> (criterion: SettlementCriterion)
        ensures
            criterion == self.for_role(role),
    {
        match role {
            SettlementRole::Baseline => self.baseline,
            SettlementRole::Terminal => self.terminal,
        }
    }
}

/// One meter reading.
#[derive(Debug, Clone, Copy, PartialEq, Eq, Structural)]
pub struct SettlementMeterObservation {
    pub at: UtcTimestamp,
    pub quota_used: QuotaUsed,
    pub reported_resolution: ReportedResolution,
}

impl SettlementMeterObservation {
    pub fn new(
        at: UtcTimestamp,
        quota_used: QuotaUsed,
        reported_resolution: ReportedResolution,
    ) -> (observation: Self)
        ensures
            observation.at == at,
            observation.quota_used == quota_used,
            observation.reported_resolution == reported_resolution,
    {
        SettlementMeterObservation { at, quota_used, reported_resolution }
    }

    pub fn at(self) -> (at: UtcTimestamp)
        ensures
            at == self.at,
    {
        self.at
    }

    pub fn quota_used(self) -> (used: QuotaUsed)
        ensures
            used == self.quota_used,
    {
        self.quota_used
    }

    pub fn reported_resolution(self) -> (resolution: ReportedResolution)
        ensures
            resolution == self.reported_resolution,
    {
        self.reported_resolution
    }
}

/// Whether a series of readings is known to be complete.
#[derive(Debug, Clone, Copy, PartialEq, Eq, Structural)]
pub enum SettlementCoverage {
    Complete,
    Insufficient { expected_observations: u32, observed_observations: u32 },
}

impl SettlementCoverage {
    pub fn complete() -> (coverage: Self)
        ensures
            coverage == SettlementCoverage::Complete,
    {
        SettlementCoverage::Complete
    }

    pub fn insufficient(expected_observations: u32, observed_observations: u32) -> (coverage: Self)
        ensures
            coverage == (SettlementCoverage::Insufficient {
                expected_observations,
                observed_observations,
            }),
    {
        SettlementCoverage::Insufficient { expected_observations, observed_observations }
    }

    pub fn is_complete(self) -> (complete: bool)
        ensures
            complete == (self is Complete),
    {
        match self {
            SettlementCoverage::Complete => true,
            SettlementCoverage::Insufficient { .. } => false,
        }
    }

    pub fn expected_observations(self) -> (expected: Option<u32>)
        ensures
            expected == match self {
                SettlementCoverage::Complete => None,
                SettlementCoverage::Insufficient { expected_observations, .. } => Some(
                    expected_observations,
                ),
            },
    {
        match self {
            SettlementCoverage::Complete => None,
            SettlementCoverage::Insufficient { expected_observations, .. } => Some(
                expected_observations,
            ),
        }
    }

    pub fn observed_observations(self) -> (observed: Option<u32>)
        ensures
            observed == match self {
                SettlementCoverage::Complete => None,
                SettlementCoverage::Insufficient { observed_observations, .. } => Some(
                    observed_observations,
                ),
            },
    {
        match self {
            SettlementCoverage::Complete => None,
            SettlementCoverage::Insufficient { observed_observations, .. } => Some(
                observed_observations,
            ),
        }
    }
}

/// A series of readings with the coverage fact established for it.
#[derive(Debug, Clone, PartialEq, Eq)]
pub struct SettlementObservationSeries {
    pub started_at: UtcTimestamp,
    pub observations: Vec<SettlementMeterObservation>,
    pub coverage: SettlementCoverage,
}

impl SettlementObservationSeries {
    pub fn new(
        started_at: UtcTimestamp,
        observations: Vec<SettlementMeterObservation>,
        coverage: SettlementCoverage,
    ) -> (series: Self)
        ensures
            series.started_at == started_at,
            series.observations == observations,
            series.coverage == coverage,
    {
        SettlementObservationSeries { started_at, observations, coverage }
    }

    pub fn complete(
        started_at: UtcTimestamp,
        observations: Vec<SettlementMeterObservation>,
    ) -> (series: Self)
        ensures
            series.started_at == started_at,
            series.observations == observations,
            series.coverage == SettlementCoverage::Complete,
    {
        Self::new(started_at, observations, SettlementCoverage::Complete)
    }

    pub fn started_at(&self) -> (at: UtcTimestamp)
        ensures
            at == self.started_at,
    {
        self.started_at
    }

    pub fn observations(&self) -> (observations: &[SettlementMeterObservation])
        ensures
            observations@ == self.observations@,
    {
        self.observations.as_slice()
    }

    pub fn coverage(&self) -> (coverage: SettlementCoverage)
        ensures
            coverage == self.coverage,
    {
        self.coverage
    }
}

/// Why a boundary did not settle.
#[derive(Debug, Clone, Copy, PartialEq, Eq, Structural)]
pub enum IncompleteSettlementReason {
    InsufficientMeterCoverage,
    NoPlateauWithinWindow,
}

/// The reading that completes the earliest plateau.
#[derive(Debug, Clone, Copy, PartialEq, Eq, Structural)]
pub struct SettledBoundary {
    pub observation_index: usize,
    pub observed_at: UtcTimestamp,
    pub quota_used: QuotaUsed,
}

impl SettledBoundary {
    pub fn observation_index(self) -> (index: usize)
        ensures
            index == self.observation_index,
    {
        self.observation_index
    }

    pub fn observed_at(self) -> (at: UtcTimestamp)
        ensures
            at == self.observed_at,
    {
        self.observed_at
    }

    pub fn quota_used(self) -> (used: QuotaUsed)
        ensures
            used == self.quota_used,
    {
        self.quota_used
    }
}

/// What the detector found for one role.
#[derive(Debug, Clone, PartialEq, Eq, Structural)]
pub enum SettlementOutcome {
    Settled { boundary: SettledBoundary },
    Incomplete {
        reason: IncompleteSettlementReason,
        deadline: UtcTimestamp,
        observed_until: Option<UtcTimestamp>,
    },
}

impl SettlementOutcome {
    pub fn is_settled(&self) -> (settled: bool)
        ensures
            settled == (*self is Settled),
    {
        matches!(self, SettlementOutcome::Settled { .. })
    }

    pub fn is_incomplete(&self) -> (incomplete: bool)
        ensures
            incomplete == (*self is Incomplete),
    {
        matches!(self, SettlementOutcome::Incomplete { .. })
    }

    pub fn boundary(&self) -> (boundary: Option<SettledBoundary>)
        ensures
            boundary == match *self {
                SettlementOutcome::Settled { boundary } => Some(boundary),
                SettlementOutcome::Incomplete { .. } => None,
            },
    {
        match self {
            SettlementOutcome::Settled { boundary } => Some(*boundary),
            SettlementOutcome::Incomplete { .. } => None,
        }
    }

    pub fn incomplete_reason(&self) -> (reason: Option<IncompleteSettlementReason>)
        ensures
            reason == match *self {
                SettlementOutcome::Settled { .. } => None,
                SettlementOutcome::Incomplete { reason, .. } => Some(reason),
            },
    {
        match self {
            SettlementOutcome::Settled { .. } => None,
            SettlementOutcome::Incomplete { reason, .. } => Some(*reason),
        }
    }
}

/// The outcomes of both roles of one experiment.
#[derive(Debug, Clone, PartialEq, Eq, Structural)]
pub struct ExperimentSettlement {
    pub baseline: SettlementOutcome,
    pub terminal: SettlementOutcome,
}

/// The two settled endpoints that a fit may be published from.
#[derive(Debug, Clone, Copy, PartialEq, Eq, Structural)]
pub struct SettledExperimentBoundaries {
    pub baseline: SettledBoundary,
    pub terminal: SettledBoundary,
}

impl ExperimentSettlement {
    /// Both boundaries, where both settled.
    pub open spec fn endpoints(self) -> Option<SettledExperimentBoundaries> {
        match (self.baseline, self.terminal) {
            (
                SettlementOutcome::Settled { boundary: baseline },
                SettlementOutcome::Settled { boundary: terminal },
            ) => Some(SettledExperimentBoundaries { baseline, terminal }),
            _ => None,
        }
    }

    pub fn is_incomplete(&self) -> (incomplete: bool)
        ensures
            incomplete == (self.baseline is Incomplete || self.terminal is Incomplete),
    {
        self.baseline.is_incomplete() || self.terminal.is_incomplete()
    }

    /// The two settled boundaries, only where both settled: an incomplete role has no
    /// fallback from which a fit could be published.
    pub fn publishable_fit(&self) -> (fit: Option<SettledExperimentBoundaries>)
        ensures
            fit == self.endpoints(),
            fit is None <==> (self.baseline is Incomplete || self.terminal is Incomplete),
    {
        match (self.baseline.boundary(), self.terminal.boundary()) {
            (Some(baseline), Some(terminal)) => Some(
                SettledExperimentBoundaries { baseline, terminal },
            ),
            _ => None,
        }
    }

    pub fn published_fit(&self) -> (fit: Option<SettledExperimentBoundaries>)
        ensures
            fit == self.endpoints(),
    {
        self.publishable_fit()
    }
}

/// The distance between two integers.
pub open spec fn distance(a: int, b: int) -> int {
    if a < b {
        b - a
    } else {
        a - b
    }
}

/// An integer brought into the range of `i64`.
pub open spec fn clamped(n: int) -> i64 {
    if n > i64::MAX {
        i64::MAX
    } else if n < i64::MIN {
        i64::MIN
    } else {
        n as i64
    }
}

/// The last moment at which a plateau may end.
pub open spec fn deadline_after(started_at: UtcTimestamp, window: MonotonicDuration) -> UtcTimestamp {
    UtcTimestamp { nanos: clamped(started_at.nanos + clamped(window.nanos as int)) }
}

/// Whether a reading lies between the start of the series and the deadline.
pub open spec fn within(
    observations: Seq<SettlementMeterObservation>,
    from: UtcTimestamp,
    until: UtcTimestamp,
) -> spec_fn(int) -> bool {
    |i: int| from.nanos <= observations[i].at.nanos <= until.nanos
}

/// Whether one reading is no later than another.
pub open spec fn no_later(observations: Seq<SettlementMeterObservation>) -> spec_fn(
    int,
    int,
) -> bool {
    |a: int, b: int| observations[a].at.nanos <= observations[b].at.nanos
}

/// The readings that count, as positions in the series, in order of time.
pub open spec fn chronology(
    observations: Seq<SettlementMeterObservation>,
    from: UtcTimestamp,
    until: UtcTimestamp,
) -> Seq<int> {
    stable_order(observations.len(), within(observations, from, until), no_later(observations))
}

/// Whether the reading after position `k` of the chronology is far enough from it.
pub open spec fn spaced(
    observations: Seq<SettlementMeterObservation>,
    order: Seq<int>,
    criterion: SettlementCriterion,
    k: int,
) -> bool {
    distance(
        observations[order[k + 1]].at.nanos as int,
        observations[order[k]].at.nanos as int,
    ) >= criterion.spacing().nanos
}

/// Whether two readings differ by no more whole resolution steps than tolerated.
pub open spec fn steady(
    left: SettlementMeterObservation,
    right: SettlementMeterObservation,
    criterion: SettlementCriterion,
) -> bool {
    distance(left.quota_used@, right.quota_used@) / criterion.resolution()@
        <= criterion.tolerance()
}

/// Whether the readings from position `start` of the chronology form a plateau.
pub open spec fn plateau(
    observations: Seq<SettlementMeterObservation>,
    order: Seq<int>,
    criterion: SettlementCriterion,
    start: int,
) -> bool {
    let end = start + criterion.count();
    &&& 0 <= start
    &&& end <= order.len()
    &&& forall|k: int|
        start <= k < end - 1 ==> #[trigger] spaced(observations, order, criterion, k)
    &&& distance(
        observations[order[end - 1]].at.nanos as int,
        observations[order[start]].at.nanos as int,
    ) >= criterion.span().nanos
    &&& forall|k: int|
        start <= k < end ==> observations[#[trigger] order[k]].reported_resolution
            == criterion.resolution()
    &&& forall|i: int, j: int|
        start <= i < j < end ==> steady(
            observations[#[trigger] order[i]],
            observations[#[trigger] order[j]],
            criterion,
        )
}

/// The first position of the chronology, from `from` on, at which a plateau starts.
pub open spec fn first_plateau(
    observations: Seq<SettlementMeterObservation>,
    order: Seq<int>,
    criterion: SettlementCriterion,
    from: int,
) -> Option<int>
    decreases order.len() - from,
{
    if from < 0 || from + criterion.count() > order.len() || from >= order.len() {
        None
    } else if plateau(observations, order, criterion, from) {
        Some(from)
    } else {
        first_plateau(observations, order, criterion, from + 1)
    }
}

/// The latest of the first `n` readings that is not before the start of the series.
pub open spec fn latest_reading(
    observations: Seq<SettlementMeterObservation>,
    from: UtcTimestamp,
    n: int,
) -> Option<UtcTimestamp>
    decreases n,
{
    if n <= 0 {
        None
    } else {
        let earlier = latest_reading(observations, from, n - 1);
        let at = observations[n - 1].at;
        if at.nanos < from.nanos || (earlier is Some && earlier->0.nanos > at.nanos) {
            earlier
        } else {
            Some(at)
        }
    }
}

/// What detection finds in some readings under a criterion.
pub open spec fn settlement_of(
    observations: Seq<SettlementMeterObservation>,
    started_at: UtcTimestamp,
    coverage: SettlementCoverage,
    criterion: SettlementCriterion,
) -> SettlementOutcome {
    let deadline = deadline_after(started_at, criterion.window());
    let observed_until = latest_reading(observations, started_at, observations.len() as int);
    let order = chronology(observations, started_at, deadline);
    if !(coverage is Complete) {
        SettlementOutcome::Incomplete {
            reason: IncompleteSettlementReason::InsufficientMeterCoverage,
            deadline,
            observed_until,
        }
    } else {
        match first_plateau(observations, order, criterion, 0) {
            Some(start) => {
                let index = order[start + criterion.count() - 1];
                SettlementOutcome::Settled {
                    boundary: SettledBoundary {
                        observation_index: index as usize,
                        observed_at: observations[index].at,
                        quota_used: observations[index].quota_used,
                    },
                }
            },
            None => SettlementOutcome::Incomplete {
                reason: IncompleteSettlementReason::NoPlateauWithinWindow,
                deadline,
                observed_until,
            },
        }
    }
}

/// What detection finds in a series under a criterion.
pub open spec fn settlement(
    series: SettlementObservationSeries,
    criterion: SettlementCriterion,
) -> SettlementOutcome {
    settlement_of(series.observations@, series.started_at, series.coverage, criterion)
}

fn gap(a: i64, b: i64) -> (between: u64)
    ensures
        between == distance(a as int, b as int),
{
    if a < b {
        (b as i128 - a as i128) as u64
    } else {
        (a as i128 - b as i128) as u64
    }
}

fn settlement_deadline(started_at: UtcTimestamp, window: MonotonicDuration) -> (deadline:
    UtcTimestamp)
    ensures
        deadline == deadline_after(started_at, window),
{
    let reach: i128 = if window.as_nanos() > i64::MAX as u64 {
        i64::MAX as i128
    } else {
        window.as_nanos() as i128
    };
    let end: i128 = started_at.unix_nanos() as i128 + reach;
    if end > i64::MAX as i128 {
        UtcTimestamp::from_unix_nanos(i64::MAX)
    } else {
        UtcTimestamp::from_unix_nanos(end as i64)
    }
}

proof fn lemma_no_later_is_total(observations: Seq<SettlementMeterObservation>)
    ensures
        total_preorder(no_later(observations)),
{
}

fn in_order_of_time(
    observations: &Vec<SettlementMeterObservation>,
    from: UtcTimestamp,
    until: UtcTimestamp,
) -> (order: Vec<usize>)
    ensures
        positions(order@) == chronology(observations@, from, until),
        forall|k: int| 0 <= k < order@.len() ==> #[trigger] order@[k] < observations@.len(),
{
    let ghost keep = within(observations@, from, until);
    let ghost leq = no_later(observations@);
    let mut order: Vec<usize> = Vec::new();
    let mut i: usize = 0;
    assert(positions(order@) =~= Seq::empty());
    while i < observations.len()
        invariant
            i <= observations@.len(),
            keep == within(observations@, from, until),
            leq == no_later(observations@),
            positions(order@) == stable_order(i as nat, keep, leq),
            forall|k: int| 0 <= k < order@.len() ==> #[trigger] order@[k] < i,
        decreases observations@.len() - i,
    {
        let at: i64 = observations[i].at.unix_nanos();
        if from.unix_nanos() <= at && at <= until.unix_nanos() {
            let mut slot: usize = order.len();
            while slot > 0 && observations[order[slot - 1]].at.unix_nanos() > at
                invariant
                    slot <= order@.len(),
                    i < observations@.len(),
                    at == observations@[i as int].at.nanos,
                    leq == no_later(observations@),
                    forall|k: int| 0 <= k < order@.len() ==> #[trigger] order@[k] < i,
                    forall|k: int|
                        slot <= k < order@.len() ==> !leq(
                            #[trigger] positions(order@)[k],
                            i as int,
                        ),
                decreases slot,
            {
                slot = slot - 1;
            }
            proof {
                lemma_placed_by_insertion(positions(order@), i as int, leq, slot as int);
                assert(positions(order@.insert(slot as int, i)) =~= positions(order@).insert(
                    slot as int,
                    i as int,
                ));
            }
            order.insert(slot, i);
        }
        i = i + 1;
    }
    order
}

fn last_reading(series: &SettlementObservationSeries) -> (latest: Option<UtcTimestamp>)
    ensures
        latest == latest_reading(
            series.observations@,
            series.started_at,
            series.observations@.len() as int,
        ),
{
    let mut latest: Option<UtcTimestamp> = None;
    let mut i: usize = 0;
    while i < series.observations.len()
        invariant
            i <= series.observations@.len(),
            latest == latest_reading(series.observations@, series.started_at, i as int),
        decreases series.observations@.len() - i,
    {
        let at: UtcTimestamp = series.observations[i].at;
        if at.unix_nanos() >= series.started_at.unix_nanos() {
            match latest {
                Some(earlier) => {
                    if earlier.unix_nanos() <= at.unix_nanos() {
                        latest = Some(at);
                    }
                },
                None => {
                    latest = Some(at);
                },
            }
        }
        i = i + 1;
    }
    latest
}

fn has_required_spacing(
    observations: &Vec<SettlementMeterObservation>,
    order: &Vec<usize>,
    start: usize,
    end: usize,
    criterion: SettlementCriterion,
) -> (spaced_out: bool)
    requires
        start < end <= order@.len(),
        forall|k: int| 0 <= k < order@.len() ==> #[trigger] order@[k] < observations@.len(),
    ensures
        spaced_out == forall|k: int|
            start <= k < end - 1 ==> #[trigger] spaced(
                observations@,
                positions(order@),
                criterion,
                k,
            ),
{
    let least: u64 = criterion.sampling_interval().as_nanos();
    let mut k: usize = start;
    while k + 1 < end
        invariant
            start <= k < end <= order@.len(),
            forall|k: int| 0 <= k < order@.len() ==> #[trigger] order@[k] < observations@.len(),
            least == criterion.spacing().nanos,
            forall|m: int|
                start <= m < k ==> #[trigger] spaced(
                    observations@,
                    positions(order@),
                    criterion,
                    m,
                ),
        decreases end - k,
    {
        let later: i64 = observations[order[k + 1]].at.unix_nanos();
        let earlier: i64 = observations[order[k]].at.unix_nanos();
        if gap(later, earlier) < least {
            assert(!spaced(observations@, positions(order@), criterion, k as int));
            return false;
        }
        k = k + 1;
    }
    true
}

fn has_resolution_stability(
    observations: &Vec<SettlementMeterObservation>,
    order: &Vec<usize>,
    start: usize,
    end: usize,
    criterion: SettlementCriterion,
) -> (stable: bool)
    requires
        start < end <= order@.len(),
        forall|k: int| 0 <= k < order@.len() ==> #[trigger] order@[k] < observations@.len(),
    ensures
        stable == {
            &&& forall|k: int|
                start <= k < end ==> observations@[#[trigger] positions(
                    order@,
                )[k]].reported_resolution == criterion.resolution()
            &&& forall|i: int, j: int|
                start <= i < j < end ==> steady(
                    observations@[#[trigger] positions(order@)[i]],
                    observations@[#[trigger] positions(order@)[j]],
                    criterion,
                )
        },
{
    let resolution: u32 = criterion.reported_resolution().as_ppm().get();
    let units: u32 = criterion.maximum_change_resolution_units();
    let mut k: usize = start;
    while k < end
        invariant
            start <= k <= end <= order@.len(),
            forall|k: int| 0 <= k < order@.len() ==> #[trigger] order@[k] < observations@.len(),
            forall|m: int|
                start <= m < k ==> observations@[#[trigger] positions(
                    order@,
                )[m]].reported_resolution == criterion.resolution(),
        decreases end - k,
    {
        if observations[order[k]].reported_resolution != criterion.reported_resolution() {
            assert(observations@[positions(order@)[k as int]].reported_resolution
                != criterion.resolution());
            return false;
        }
        k = k + 1;
    }
    let mut i: usize = start;
    while i < end
        invariant
            start <= i <= end <= order@.len(),
            resolution == criterion.resolution()@,
            resolution > 0,
            units == criterion.tolerance(),
            forall|k: int| 0 <= k < order@.len() ==> #[trigger] order@[k] < observations@.len(),
            forall|m: int, n: int|
                start <= m < i && m < n < end ==> steady(
                    observations@[#[trigger] positions(order@)[m]],
                    observations@[#[trigger] positions(order@)[n]],
                    criterion,
                ),
        decreases end - i,
    {
        let left: u32 = observations[order[i]].quota_used.as_ppm().get();
        let mut j: usize = i + 1;
        while j < end
            invariant
                start <= i < j <= end <= order@.len(),
                resolution == criterion.resolution()@,
                resolution > 0,
                units == criterion.tolerance(),
                left == observations@[order@[i as int] as int].quota_used@,
                forall|k: int| 0 <= k < order@.len() ==> #[trigger] order@[k] < observations@.len(),
                forall|n: int|
                    i < n < j ==> steady(
                        observations@[positions(order@)[i as int]],
                        observations@[#[trigger] positions(order@)[n]],
                        criterion,
                    ),
            decreases end - j,
        {
            let right: u32 = observations[order[j]].quota_used.as_ppm().get();
            let change: u32 = if left < right {
                right - left
            } else {
                left - right
            };
            if change / resolution > units {
                assert(!steady(
                    observations@[positions(order@)[i as int]],
                    observations@[positions(order@)[j as int]],
                    criterion,
                ));
                return false;
            }
            j = j + 1;
        }
        i = i + 1;
    }
    true
}

/// Finds the earliest plateau for one role.
///
/// A series known to be incomplete never settles, however stable it looks. The
/// series itself is left as it is.
pub fn detect_settlement(
    series: &SettlementObservationSeries,
    policy: &SettlementPolicy,
    role: SettlementRole,
) -> (outcome: SettlementOutcome)
    ensures
        outcome == settlement(*series, policy.for_role(role)),
{
    let criterion: SettlementCriterion = policy.criterion(role);
    let deadline: UtcTimestamp = settlement_deadline(
        series.started_at,
        criterion.maximum_settlement_window(),
    );
    let observed_until: Option<UtcTimestamp> = last_reading(series);
    if !series.coverage.is_complete() {
        return SettlementOutcome::Incomplete {
            reason: IncompleteSettlementReason::InsufficientMeterCoverage,
            deadline,
            observed_until,
        };
    }
    let order: Vec<usize> = in_order_of_time(&series.observations, series.started_at, deadline);
    let required: usize = criterion.required_observations() as usize;
    let ghost chronological = positions(order@);
    let mut start: usize = 0;
    while start < order.len() && required <= order.len() - start
        invariant
            start <= order@.len(),
            required == criterion.count(),
            required >= 2,
            chronological == positions(order@),
            chronological == chronology(series.observations@, series.started_at, deadline),
            criterion == policy.for_role(role),
            deadline == deadline_after(series.started_at, criterion.window()),
            series.coverage is Complete,
            forall|k: int|
                0 <= k < order@.len() ==> #[trigger] order@[k] < series.observations@.len(),
            first_plateau(series.observations@, chronological, criterion, 0) == first_plateau(
                series.observations@,
                chronological,
                criterion,
                start as int,
            ),
        decreases order@.len() - start,
    {
        let end: usize = start + required;
        let first: i64 = series.observations[order[start]].at.unix_nanos();
        let last: i64 = series.observations[order[end - 1]].at.unix_nanos();
        if has_required_spacing(&series.observations, &order, start, end, criterion) && gap(
            last,
            first,
        ) >= criterion.minimum_span().as_nanos() && has_resolution_stability(
            &series.observations,
            &order,
            start,
            end,
            criterion,
        ) {
            let observation_index: usize = order[end - 1];
            assert(plateau(series.observations@, chronological, criterion, start as int));
            return SettlementOutcome::Settled {
                boundary: SettledBoundary {
                    observation_index,
                    observed_at: series.observations[observation_index].at,
                    quota_used: series.observations[observation_index].quota_used,
                },
            };
        }
        assert(!plateau(series.observations@, chronological, criterion, start as int));
        start = start + 1;
    }
    SettlementOutcome::Incomplete {
        reason: IncompleteSettlementReason::NoPlateauWithinWindow,
        deadline,
        observed_until,
    }
}

/// Evaluates both roles, each under its own recorded criterion.
pub fn evaluate_experiment_settlement(
    baseline: &SettlementObservationSeries,
    terminal: &SettlementObservationSeries,
    policy: &SettlementPolicy,
) -> (settlements: ExperimentSettlement)
    ensures
        settlements.baseline == settlement(*baseline, policy.for_role(SettlementRole::Baseline)),
        settlements.terminal == settlement(*terminal, policy.for_role(SettlementRole::Terminal)),
{
    ExperimentSettlement {
        baseline: detect_settlement(baseline, policy, SettlementRole::Baseline),
        terminal: detect_settlement(terminal, policy, SettlementRole::Terminal),
    }
}

/// A chronology holds exactly the readings between start and deadline, each once, in
/// order of time, readings of the same moment in the order they were given.
pub proof fn law_chronology_is_time_order(
    observations: Seq<SettlementMeterObservation>,
    from: UtcTimestamp,
    until: UtcTimestamp,
)
    ensures
        chronology(observations, from, until).no_duplicates(),
        arranged(chronology(observations, from, until), no_later(observations)),
        forall|i: int| #[trigger]
            chronology(observations, from, until).contains(i) <==> (0 <= i < observations.len()
                && from.nanos <= observations[i].at.nanos <= until.nanos),
        chronology(observations, from, until).len() <= observations.len(),
{
    lemma_no_later_is_total(observations);
    lemma_stable_order(
        observations.len(),
        within(observations, from, until),
        no_later(observations),
    );
}

proof fn lemma_first_plateau(
    observations: Seq<SettlementMeterObservation>,
    order: Seq<int>,
    criterion: SettlementCriterion,
    from: int,
)
    ensures
        match first_plateau(observations, order, criterion, from) {
            Some(start) => {
                &&& from <= start
                &&& plateau(observations, order, criterion, start)
                &&& forall|s: int|
                    from <= s < start ==> !(#[trigger] plateau(observations, order, criterion, s))
            },
            None => criterion.count() > 0 && from >= 0 ==> forall|s: int|
                from <= s ==> !(#[trigger] plateau(observations, order, criterion, s)),
        },
    decreases order.len() - from,
{
    if from < 0 || from + criterion.count() > order.len() || from >= order.len() {
    } else if !plateau(observations, order, criterion, from) {
        lemma_first_plateau(observations, order, criterion, from + 1);
    }
}

/// Fewer readings than the criterion requires never settle.
pub proof fn law_too_few_readings_never_settle(
    series: SettlementObservationSeries,
    criterion: SettlementCriterion,
)
    requires
        series.observations@.len() < criterion.count(),
    ensures
        settlement(series, criterion) is Incomplete,
{
    let deadline = deadline_after(series.started_at, criterion.window());
    law_chronology_is_time_order(series.observations@, series.started_at, deadline);
}

/// A series known to be incomplete never settles, whatever its readings.
pub proof fn law_insufficient_coverage_never_settles(
    series: SettlementObservationSeries,
    criterion: SettlementCriterion,
)
    requires
        series.coverage is Insufficient,
    ensures
        settlement(series, criterion) is Incomplete,
        settlement(series, criterion)->reason
            == IncompleteSettlementReason::InsufficientMeterCoverage,
{
}

/// A settled boundary is a reading of the series, taken no earlier than the start and
/// no later than the deadline, and it ends a plateau.
pub proof fn law_boundary_ends_a_plateau(
    series: SettlementObservationSeries,
    criterion: SettlementCriterion,
)
    requires
        criterion.count() > 0,
        settlement(series, criterion) is Settled,
    ensures
        ({
            let observations = series.observations@;
            let deadline = deadline_after(series.started_at, criterion.window());
            let order = chronology(observations, series.started_at, deadline);
            let boundary = settlement(series, criterion)->boundary;
            let index = boundary.observation_index as int;
            &&& index < observations.len()
            &&& boundary.observed_at == observations[index].at
            &&& boundary.quota_used == observations[index].quota_used
            &&& series.started_at.nanos <= boundary.observed_at.nanos <= deadline.nanos
            &&& exists|start: int| #[trigger]
                plateau(observations, order, criterion, start) && order[start + criterion.count()
                    - 1] == index
        }),
{
    let observations = series.observations@;
    let deadline = deadline_after(series.started_at, criterion.window());
    let order = chronology(observations, series.started_at, deadline);
    law_chronology_is_time_order(observations, series.started_at, deadline);
    lemma_first_plateau(observations, order, criterion, 0);
    let start = first_plateau(observations, order, criterion, 0)->0;
    let index = order[start + criterion.count() - 1];
    assert(order.contains(index));
    assert(plateau(observations, order, criterion, start));
    assert(series.observations.len() == observations.len());
}

/// Detection finds the earliest plateau: a complete series settles exactly where its
/// chronology holds a plateau, and none ends before the boundary.
pub proof fn law_settles_at_the_earliest_plateau(
    series: SettlementObservationSeries,
    criterion: SettlementCriterion,
)
    requires
        criterion.count() > 0,
        series.coverage is Complete,
    ensures
        ({
            let observations = series.observations@;
            let deadline = deadline_after(series.started_at, criterion.window());
            let order = chronology(observations, series.started_at, deadline);
            &&& settlement(series, criterion) is Settled <==> exists|start: int| #[trigger]
                plateau(observations, order, criterion, start)
            &&& settlement(series, criterion) is Settled ==> forall|start: int| #[trigger]
                plateau(observations, order, criterion, start)
                    ==> settlement(series, criterion)->boundary.observed_at.nanos
                    <= observations[order[start + criterion.count() - 1]].at.nanos
        }),
{
    let observations = series.observations@;
    let deadline = deadline_after(series.started_at, criterion.window());
    let order = chronology(observations, series.started_at, deadline);
    law_chronology_is_time_order(observations, series.started_at, deadline);
    lemma_first_plateau(observations, order, criterion, 0);
    if settlement(series, criterion) is Settled {
        let first = first_plateau(observations, order, criterion, 0)->0;
        assert(plateau(observations, order, criterion, first));
        assert forall|start: int| #[trigger]
            plateau(
                observations,
                order,
                criterion,
                start,
            ) implies settlement(series, criterion)->boundary.observed_at.nanos
            <= observations[order[start + criterion.count() - 1]].at.nanos by {
            assert(first <= start);
            let leq = no_later(observations);
            let a = order[first + criterion.count() - 1];
            let b = order[start + criterion.count() - 1];
            if first < start {
                assert(leq(a, b));
            }
        }
    }
}

/// Readings of a plateau differ by less than one resolution step more than tolerated:
/// with a tolerance of zero, one complete step is material and anything less is not.
pub proof fn law_one_step_beyond_tolerance_is_material(
    left: SettlementMeterObservation,
    right: SettlementMeterObservation,
    criterion: SettlementCriterion,
)
    requires
        criterion.resolution()@ > 0,
    ensures
        steady(left, right, criterion) <==> distance(left.quota_used@, right.quota_used@)
            < (criterion.tolerance() + 1) * criterion.resolution()@,
{
    let change = distance(left.quota_used@, right.quota_used@);
    let step = criterion.resolution()@;
    let units = criterion.tolerance() as int;
    vstd::arithmetic::div_mod::lemma_fundamental_div_mod(change, step);
    assert(change / step <= units <==> change < (units + 1) * step) by (nonlinear_arith)
        requires
            step > 0,
            change == step * (change / step) + change % step,
            0 <= change % step < step,
    ;
}

/// Where a series settles, the required number of consecutive readings end at the
/// boundary: each is taken within the settlement window and at least one sampling interval
/// after the one before, no other reading lies between two of them, the last is at least
/// the minimum span after the first, all have the required resolution, and no two differ
/// by one whole resolution step more than is tolerated.
pub proof fn law_settled_readings_are_spaced(
    series: SettlementObservationSeries,
    criterion: SettlementCriterion,
) -> (run: Seq<int>)
    requires
        criterion.count() >= 2,
        criterion.resolution()@ > 0,
        settlement(series, criterion) is Settled,
    ensures
        series.coverage is Complete,
        run.len() == criterion.count(),
        run.last() == settlement(series, criterion)->boundary.observation_index,
        settlement(series, criterion)->boundary.observed_at == series.observations@[run.last()].at,
        settlement(series, criterion)->boundary.quota_used
            == series.observations@[run.last()].quota_used,
        forall|k: int|
            0 <= k < run.len() ==> 0 <= #[trigger] run[k] < series.observations@.len()
                && series.started_at.nanos <= series.observations@[run[k]].at.nanos
                && series.observations@[run[k]].at.nanos - series.started_at.nanos
                <= criterion.window().nanos && series.observations@[run[k]].reported_resolution
                == criterion.resolution(),
        forall|k: int, l: int|
            #![trigger run[k], run[l]]
            0 <= k && l == k + 1 && l < run.len() ==> series.observations@[run[l]].at.nanos
                - series.observations@[run[k]].at.nanos >= criterion.spacing().nanos,
        series.observations@[run.last()].at.nanos - series.observations@[run[0]].at.nanos
            >= criterion.span().nanos,
        forall|i: int, j: int|
            #![trigger run[i], run[j]]
            0 <= i < run.len() && 0 <= j < run.len() ==> series.observations@[run[i]].quota_used@
                - series.observations@[run[j]].quota_used@ < (criterion.tolerance() + 1)
                * criterion.resolution()@,
        forall|k: int, l: int, other: int|
            #![trigger run[k], run[l], series.observations@[other]]
            0 <= k && l == k + 1 && l < run.len() && 0 <= other < series.observations@.len()
                ==> !(series.observations@[run[k]].at.nanos < series.observations@[other].at.nanos
                < series.observations@[run[l]].at.nanos),
{
    let observations = series.observations@;
    let deadline = deadline_after(series.started_at, criterion.window());
    let order = chronology(observations, series.started_at, deadline);
    law_chronology_is_time_order(observations, series.started_at, deadline);
    lemma_first_plateau(observations, order, criterion, 0);
    let start = first_plateau(observations, order, criterion, 0)->0;
    let n = criterion.count() as int;
    let run = order.subrange(start, start + n);
    let leq = no_later(observations);
    assert(plateau(observations, order, criterion, start));
    assert forall|k: int| 0 <= k < run.len() implies 0 <= #[trigger] run[k] < observations.len()
        && series.started_at.nanos <= observations[run[k]].at.nanos
        && observations[run[k]].at.nanos - series.started_at.nanos <= criterion.window().nanos
        && observations[run[k]].reported_resolution == criterion.resolution() by {
        assert(run[k] == order[start + k]);
        assert(order.contains(order[start + k]));
    }
    assert forall|k: int, l: int|
        #![trigger run[k], run[l]]
        0 <= k && l == k + 1 && l < run.len() implies observations[run[l]].at.nanos
        - observations[run[k]].at.nanos >= criterion.spacing().nanos by {
        assert(run[k] == order[start + k] && run[l] == order[start + k + 1]);
        assert(spaced(observations, order, criterion, start + k));
        assert(leq(order[start + k], order[start + k + 1]));
    }
    assert(run.last() == order[start + n - 1] && run[0] == order[start]);
    assert(leq(order[start], order[start + n - 1]));
    assert(series.observations.len() == observations.len());
    assert forall|i: int, j: int|
        #![trigger run[i], run[j]]
        0 <= i < run.len() && 0 <= j < run.len() implies observations[run[i]].quota_used@
        - observations[run[j]].quota_used@ < (criterion.tolerance() + 1)
        * criterion.resolution()@ by {
        let a = order[start + i];
        let b = order[start + j];
        assert(run[i] == a && run[j] == b);
        law_one_step_beyond_tolerance_is_material(observations[a], observations[b], criterion);
        law_one_step_beyond_tolerance_is_material(observations[b], observations[a], criterion);
        if i < j {
            assert(steady(observations[a], observations[b], criterion));
        } else if j < i {
            assert(steady(observations[b], observations[a], criterion));
        } else {
            assert((criterion.tolerance() + 1) * criterion.resolution()@ > 0) by (nonlinear_arith)
                requires
                    criterion.tolerance() >= 0,
                    criterion.resolution()@ > 0,
            ;
        }
    }
    assert forall|k: int, l: int, other: int|
        #![trigger run[k], run[l], observations[other]]
        0 <= k && l == k + 1 && l < run.len() && 0 <= other < observations.len() implies !(
    observations[run[k]].at.nanos < observations[other].at.nanos < observations[run[l]].at.nanos) by {
        let a = order[start + k];
        let b = order[start + k + 1];
        assert(run[k] == a && run[l] == b);
        assert(order.contains(a) && order.contains(b));
        if observations[a].at.nanos < observations[other].at.nanos
            && observations[other].at.nanos < observations[b].at.nanos {
            assert(order.contains(other));
            let p = choose|p: int| 0 <= p < order.len() && order[p] == other;
            if p < start + k {
                assert(leq(order[p], order[start + k]));
            } else if p > start + k + 1 {
                assert(leq(order[start + k + 1], order[p]));
            }
        }
    }
    run
}

/// Consecutive readings of a chronology stand at consecutive positions in it.
proof fn lemma_run_is_contiguous(
    observations: Seq<SettlementMeterObservation>,
    order: Seq<int>,
    run: Seq<int>,
    p: int,
    k: int,
)
    requires
        arranged(order, no_later(observations)),
        0 <= p < order.len(),
        0 <= k < run.len(),
        order[p] == run[0],
        forall|i: int| 0 <= i < order.len() ==> 0 <= #[trigger] order[i] < observations.len(),
        forall|i: int| 0 <= i < run.len() ==> order.contains(#[trigger] run[i]),
        forall|i: int, j: int|
            #![trigger run[i], run[j]]
            0 <= i && j == i + 1 && j < run.len() ==> observations[run[i]].at.nanos
                < observations[run[j]].at.nanos,
        forall|i: int, j: int, other: int|
            #![trigger run[i], run[j], observations[other]]
            0 <= i && j == i + 1 && j < run.len() && 0 <= other < observations.len() ==> !(
            (observations[run[i]].at.nanos < observations[other].at.nanos || (
            observations[run[i]].at.nanos == observations[other].at.nanos && run[i] < other)) && (
            observations[other].at.nanos < observations[run[j]].at.nanos || (
            observations[other].at.nanos == observations[run[j]].at.nanos && other < run[j]))),
    ensures
        p + k < order.len(),
        order[p + k] == run[k],
    decreases k,
{
    if k > 0 {
        lemma_run_is_contiguous(observations, order, run, p, k - 1);
        let leq = no_later(observations);
        assert(order.contains(run[k]));
        let q = choose|q: int| 0 <= q < order.len() && order[q] == run[k];
        let a = run[k - 1];
        assert(observations[a].at.nanos < observations[run[k]].at.nanos);
        if q < p + k - 1 {
            assert(leq(order[q], order[p + k - 1]));
        }
        if q > p + k {
            let other = order[p + k];
            assert(leq(order[p + k - 1], other) && (leq(other, order[p + k - 1]) ==> order[p + k
                - 1] < other));
            assert(leq(other, order[q]) && (leq(order[q], other) ==> other < order[q]));
            assert(0 <= other < observations.len());
            let there = observations[other];
            assert(false);
        }
    }
}

/// A complete series settles, and no later than at the end of it, wherever the required
/// number of readings follow one another without another between them, all within the
/// settlement window and of the required resolution, each at least one sampling interval
/// after the one before, the last at least the minimum span after the first, and no two
/// apart by one whole resolution step more than is tolerated.
pub proof fn law_spaced_readings_settle(
    series: SettlementObservationSeries,
    criterion: SettlementCriterion,
    run: Seq<int>,
)
    requires
        series.coverage is Complete,
        criterion.count() >= 2,
        criterion.spacing().nanos > 0,
        criterion.resolution()@ > 0,
        criterion.window().nanos <= i64::MAX,
        run.len() == criterion.count(),
        forall|k: int|
            0 <= k < run.len() ==> 0 <= #[trigger] run[k] < series.observations@.len()
                && series.started_at.nanos <= series.observations@[run[k]].at.nanos
                && series.observations@[run[k]].at.nanos - series.started_at.nanos
                <= criterion.window().nanos && series.observations@[run[k]].reported_resolution
                == criterion.resolution(),
        forall|k: int, l: int|
            #![trigger run[k], run[l]]
            0 <= k && l == k + 1 && l < run.len() ==> series.observations@[run[l]].at.nanos
                - series.observations@[run[k]].at.nanos >= criterion.spacing().nanos,
        series.observations@[run.last()].at.nanos - series.observations@[run[0]].at.nanos
            >= criterion.span().nanos,
        forall|i: int, j: int|
            #![trigger run[i], run[j]]
            0 <= i < run.len() && 0 <= j < run.len() ==> series.observations@[run[i]].quota_used@
                - series.observations@[run[j]].quota_used@ < (criterion.tolerance() + 1)
                * criterion.resolution()@,
        forall|i: int, j: int, other: int|
            #![trigger run[i], run[j], series.observations@[other]]
            0 <= i && j == i + 1 && j < run.len() && 0 <= other < series.observations@.len() ==> !(
            (series.observations@[run[i]].at.nanos < series.observations@[other].at.nanos || (
            series.observations@[run[i]].at.nanos == series.observations@[other].at.nanos && run[i]
                < other)) && (series.observations@[other].at.nanos
                < series.observations@[run[j]].at.nanos || (series.observations@[other].at.nanos
                == series.observations@[run[j]].at.nanos && other < run[j]))),
    ensures
        settlement(series, criterion) is Settled,
        settlement(series, criterion)->boundary.observed_at.nanos
            <= series.observations@[run.last()].at.nanos,
{
    let observations = series.observations@;
    let deadline = deadline_after(series.started_at, criterion.window());
    let order = chronology(observations, series.started_at, deadline);
    let n = criterion.count() as int;
    law_chronology_is_time_order(observations, series.started_at, deadline);
    assert forall|i: int| 0 <= i < order.len() implies 0 <= #[trigger] order[i]
        < observations.len() by {
        assert(order.contains(order[i]));
    }
    assert forall|i: int| 0 <= i < run.len() implies order.contains(#[trigger] run[i]) by {
        assert(observations[run[i]].at.nanos <= deadline.nanos);
    }
    assert(order.contains(run[0]));
    let p = choose|p: int| 0 <= p < order.len() && order[p] == run[0];
    assert forall|k: int| 0 <= k < n implies p + k < order.len() && #[trigger] run[k] == order[p
        + k] by {
        lemma_run_is_contiguous(observations, order, run, p, k);
    }
    assert(plateau(observations, order, criterion, p)) by {
        assert(run[n - 1] == order[p + n - 1]);
        assert forall|k: int| p <= k < p + n - 1 implies #[trigger] spaced(
            observations,
            order,
            criterion,
            k,
        ) by {
            assert(run[k - p] == order[k] && run[k - p + 1] == order[k + 1]);
        }
        assert forall|k: int| p <= k < p + n implies observations[#[trigger] order[k]].reported_resolution
            == criterion.resolution() by {
            assert(run[k - p] == order[k]);
        }
        assert forall|i: int, j: int| p <= i < j < p + n implies steady(
            observations[#[trigger] order[i]],
            observations[#[trigger] order[j]],
            criterion,
        ) by {
            assert(run[i - p] == order[i] && run[j - p] == order[j]);
            law_one_step_beyond_tolerance_is_material(
                observations[order[i]],
                observations[order[j]],
                criterion,
            );
        }
    }
    law_settles_at_the_earliest_plateau(series, criterion);
    assert(run.last() == order[p + n - 1]) by {
        assert(run[n - 1] == order[p + n - 1]);
    }
}

proof fn lemma_latest_reading(
    observations: Seq<SettlementMeterObservation>,
    from: UtcTimestamp,
    n: int,
)
    requires
        n <= observations.len(),
    ensures
        match latest_reading(observations, from, n) {
            Some(at) => from.nanos <= at.nanos && (exists|i: int|
                0 <= i < n && #[trigger] observations[i].at == at) && forall|i: int|
                0 <= i < n && from.nanos <= #[trigger] observations[i].at.nanos
                    ==> observations[i].at.nanos <= at.nanos,
            None => forall|i: int| 0 <= i < n ==> #[trigger] observations[i].at.nanos < from.nanos,
        },
    decreases n,
{
    if n > 0 {
        lemma_latest_reading(observations, from, n - 1);
        let here = observations[n - 1];
        match latest_reading(observations, from, n - 1) {
            Some(at) => {
                let i = choose|i: int| 0 <= i < n - 1 && #[trigger] observations[i].at == at;
                assert(observations[i].at == at);
            },
            None => {},
        }
        assert(observations[n - 1].at == here.at);
    }
}

/// A series that did not settle says until when it could have, at the latest, and up to
/// when it was read: the end of the settlement window, as far as a timestamp holds it, and
/// the latest reading from the start on, if there is one. The reason is the coverage where
/// that is known to be insufficient, and otherwise that no plateau was found.
pub proof fn law_an_unsettled_series_says_how_far_it_was_read(
    series: SettlementObservationSeries,
    criterion: SettlementCriterion,
)
    requires
        settlement(series, criterion) is Incomplete,
        criterion.window().nanos <= i64::MAX,
    ensures
        settlement(series, criterion)->reason == if series.coverage is Complete {
            IncompleteSettlementReason::NoPlateauWithinWindow
        } else {
            IncompleteSettlementReason::InsufficientMeterCoverage
        },
        settlement(series, criterion)->deadline.nanos == if series.started_at.nanos
            + criterion.window().nanos > i64::MAX {
            i64::MAX as int
        } else {
            series.started_at.nanos + criterion.window().nanos
        },
        match settlement(series, criterion)->observed_until {
            Some(at) => series.started_at.nanos <= at.nanos && (exists|i: int|
                0 <= i < series.observations@.len() && #[trigger] series.observations@[i].at == at)
                && forall|i: int|
                0 <= i < series.observations@.len() && series.started_at.nanos
                    <= #[trigger] series.observations@[i].at.nanos
                    ==> series.observations@[i].at.nanos <= at.nanos,
            None => forall|i: int|
                0 <= i < series.observations@.len() ==> #[trigger] series.observations@[i].at.nanos
                    < series.started_at.nanos,
        },
{
    lemma_latest_reading(
        series.observations@,
        series.started_at,
        series.observations@.len() as int,
    );
}

/// The conservative criterion in figures: three readings, five minutes apart, over at
/// least ten minutes, without a whole step of change, within sixty minutes.
pub proof fn law_conservative_criterion_in_figures(resolution: ReportedResolution)
    ensures
        conservative_criterion(resolution).count() == 3,
        conservative_criterion(resolution).spacing().nanos == 5 * 60 * 1_000_000_000,
        conservative_criterion(resolution).span().nanos == 10 * 60 * 1_000_000_000,
        conservative_criterion(resolution).tolerance() == 0,
        conservative_criterion(resolution).window().nanos == 60 * 60 * 1_000_000_000,
{
}

/// A criterion is accepted exactly where it asks for two readings or more, for some time
/// between them and over all of them, and for a window that holds that; and otherwise the
/// first of these that fails is named.
pub proof fn law_when_a_criterion_is_accepted(
    sampling_interval: MonotonicDuration,
    required_observations: u32,
    minimum_span: MonotonicDuration,
    maximum_settlement_window: MonotonicDuration,
)
    ensures
        ({
            let fault = criterion_fault(
                sampling_interval,
                required_observations,
                minimum_span,
                maximum_settlement_window,
            );
            &&& fault is None <==> required_observations >= 2 && sampling_interval.nanos > 0
                && minimum_span.nanos > 0 && minimum_span.nanos <= maximum_settlement_window.nanos
            &&& required_observations < 2 <==> fault == Some(
                SettlementPolicyError::TooFewObservations,
            )
            &&& required_observations >= 2 && sampling_interval.nanos == 0 <==> fault == Some(
                SettlementPolicyError::ZeroSamplingInterval,
            )
            &&& required_observations >= 2 && sampling_interval.nanos > 0 && minimum_span.nanos == 0
                <==> fault == Some(SettlementPolicyError::ZeroMinimumSpan)
            &&& required_observations >= 2 && sampling_interval.nanos > 0 && minimum_span.nanos > 0
                && maximum_settlement_window.nanos == 0 <==> fault == Some(
                SettlementPolicyError::ZeroMaximumSettlementWindow,
            )
        }),
{
}

/// A policy is accepted exactly where it has a version, its reason, where one is given,
/// says something, and two criteria that are the same have a reason to be.
pub proof fn law_when_a_policy_is_accepted(
    version: Seq<char>,
    baseline: SettlementCriterion,
    terminal: SettlementCriterion,
    shared_criteria_reason: Option<String>,
)
    ensures
        ({
            let fault = policy_fault(version, baseline, terminal, shared_criteria_reason);
            &&& fault is None <==> {
                &&& exists|i: int| 0 <= i < version.len() && !white_space(#[trigger] version[i])
                &&& shared_criteria_reason matches Some(reason) ==> !blank(reason@)
                &&& baseline == terminal ==> shared_criteria_reason is Some
            }
            &&& blank(version) ==> fault == Some(SettlementPolicyError::EmptyVersion)
            &&& !blank(version) && baseline == terminal && shared_criteria_reason is None
                ==> fault == Some(SettlementPolicyError::SharedCriteriaReasonRequired)
            &&& !blank(version) && (shared_criteria_reason matches Some(reason) && blank(reason@))
                ==> fault == Some(SettlementPolicyError::EmptySharedCriteriaReason)
        }),
{
}

/// A fit may be published from both boundaries, each as it settled, and from neither
/// alone.
pub proof fn law_fits_are_published_from_both_boundaries(settled: ExperimentSettlement)
    ensures
        match (settled.baseline, settled.terminal) {
            (
                SettlementOutcome::Settled { boundary: first },
                SettlementOutcome::Settled { boundary: last },
            ) => settled.endpoints() matches Some(ends) && ends.baseline == first && ends.terminal
                == last,
            _ => settled.endpoints() is None,
        },
{
}

} // verus!
