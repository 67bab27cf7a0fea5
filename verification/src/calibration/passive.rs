//! Passive calibration: candidates from ordinary traffic, under strict eligibility.
//!
//! An interval between two meter readings counts only where ten conditions hold and
//! neither a meter-window anomaly nor an external-validation mismatch is recorded for
//! it. Every reason that fails is reported. Passive fitting produces a candidate and
//! never an activation.

use crate::calibration::fitter::FitObservation;
use crate::domain::{Credits, QuantizationSemantics, UtcTimestamp};
use crate::ids::{EvidenceId, PlanTier, ProviderKey, WindowSemanticKey};
use vstd::prelude::*;
use vstd::string::*;

verus! {

/// What an interval must satisfy to count.
#[derive(Debug, Clone, Copy, PartialEq, Eq, PartialOrd, Ord, Hash, Structural)]
pub enum PassiveEligibilityCondition {
    HighConfidenceAccountAttribution,
    MeterObservationsOnBothSides,
    NoResetInside,
    UnchangedPlanTier,
    ExactContributingUsage,
    NoUnknownTokenComponents,
    SufficientMeterCoverage,
    NoSecondLocalSessionOrConsumer,
    ExclusivityPolicyPermitsPassive,
    ServerSideSettlementSatisfied,
}

impl PassiveEligibilityCondition {
    /// The one-word name of the condition.
    pub open spec fn name(self) -> Seq<char> {
        match self {
            PassiveEligibilityCondition::HighConfidenceAccountAttribution =>
                "high_confidence_account_attribution"@,
            PassiveEligibilityCondition::MeterObservationsOnBothSides =>
                "meter_observations_on_both_sides"@,
            PassiveEligibilityCondition::NoResetInside => "no_reset_inside"@,
            PassiveEligibilityCondition::UnchangedPlanTier => "unchanged_plan_tier"@,
            PassiveEligibilityCondition::ExactContributingUsage => "exact_contributing_usage"@,
            PassiveEligibilityCondition::NoUnknownTokenComponents =>
                "no_unknown_token_components"@,
            PassiveEligibilityCondition::SufficientMeterCoverage => "sufficient_meter_coverage"@,
            PassiveEligibilityCondition::NoSecondLocalSessionOrConsumer =>
                "no_second_local_session_or_consumer"@,
            PassiveEligibilityCondition::ExclusivityPolicyPermitsPassive =>
                "exclusivity_policy_permits_passive"@,
            PassiveEligibilityCondition::ServerSideSettlementSatisfied =>
                "server_side_settlement_satisfied"@,
        }
    }

    pub fn as_str(self) -> (name: &'static str)
        ensures
            name@ == self.name(),
    {
        match self {
            PassiveEligibilityCondition::HighConfidenceAccountAttribution =>
                "high_confidence_account_attribution",
            PassiveEligibilityCondition::MeterObservationsOnBothSides =>
                "meter_observations_on_both_sides",
            PassiveEligibilityCondition::NoResetInside => "no_reset_inside",
            PassiveEligibilityCondition::UnchangedPlanTier => "unchanged_plan_tier",
            PassiveEligibilityCondition::ExactContributingUsage => "exact_contributing_usage",
            PassiveEligibilityCondition::NoUnknownTokenComponents => "no_unknown_token_components",
            PassiveEligibilityCondition::SufficientMeterCoverage => "sufficient_meter_coverage",
            PassiveEligibilityCondition::NoSecondLocalSessionOrConsumer =>
                "no_second_local_session_or_consumer",
            PassiveEligibilityCondition::ExclusivityPolicyPermitsPassive =>
                "exclusivity_policy_permits_passive",
            PassiveEligibilityCondition::ServerSideSettlementSatisfied =>
                "server_side_settlement_satisfied",
        }
    }

    /// All ten conditions in the order in which they are evaluated.
    pub fn all() -> (conditions: [Self; 10])
        ensures
            conditions@ == seq![
                PassiveEligibilityCondition::HighConfidenceAccountAttribution,
                PassiveEligibilityCondition::MeterObservationsOnBothSides,
                PassiveEligibilityCondition::NoResetInside,
                PassiveEligibilityCondition::UnchangedPlanTier,
                PassiveEligibilityCondition::ExactContributingUsage,
                PassiveEligibilityCondition::NoUnknownTokenComponents,
                PassiveEligibilityCondition::SufficientMeterCoverage,
                PassiveEligibilityCondition::NoSecondLocalSessionOrConsumer,
                PassiveEligibilityCondition::ExclusivityPolicyPermitsPassive,
                PassiveEligibilityCondition::ServerSideSettlementSatisfied,
            ],
    {
        [
            PassiveEligibilityCondition::HighConfidenceAccountAttribution,
            PassiveEligibilityCondition::MeterObservationsOnBothSides,
            PassiveEligibilityCondition::NoResetInside,
            PassiveEligibilityCondition::UnchangedPlanTier,
            PassiveEligibilityCondition::ExactContributingUsage,
            PassiveEligibilityCondition::NoUnknownTokenComponents,
            PassiveEligibilityCondition::SufficientMeterCoverage,
            PassiveEligibilityCondition::NoSecondLocalSessionOrConsumer,
            PassiveEligibilityCondition::ExclusivityPolicyPermitsPassive,
            PassiveEligibilityCondition::ServerSideSettlementSatisfied,
        ]
    }
}

/// The meter-window anomalies that exclude an interval.
#[derive(Debug, Clone, Copy, PartialEq, Eq, PartialOrd, Ord, Hash, Structural)]
pub enum WindowAnomalyKind {
    PercentageDecreaseWithoutReset,
    UnexpectedResetTimestampChange,
}

impl WindowAnomalyKind {
    /// The one-word name of the anomaly.
    pub open spec fn name(self) -> Seq<char> {
        match self {
            WindowAnomalyKind::PercentageDecreaseWithoutReset =>
                "percentage_decrease_without_reset"@,
            WindowAnomalyKind::UnexpectedResetTimestampChange =>
                "unexpected_reset_timestamp_change"@,
        }
    }

    pub fn as_str(self) -> (name: &'static str)
        ensures
            name@ == self.name(),
    {
        match self {
            WindowAnomalyKind::PercentageDecreaseWithoutReset =>
                "percentage_decrease_without_reset",
            WindowAnomalyKind::UnexpectedResetTimestampChange =>
                "unexpected_reset_timestamp_change",
        }
    }
}

/// Why an interval does not count.
#[derive(Debug, Clone, PartialEq, Eq, PartialOrd, Ord, Hash)]
pub enum PassiveExclusionReason {
    ConditionFailed(PassiveEligibilityCondition, String),
    MeterWindowAnomaly { kind: WindowAnomalyKind, detail: String },
    ExternalValidationMismatch { detail: String },
}

/// What a reason says.
pub enum ReasonView {
    ConditionFailed(PassiveEligibilityCondition, Seq<char>),
    MeterWindowAnomaly { kind: WindowAnomalyKind, detail: Seq<char> },
    ExternalValidationMismatch { detail: Seq<char> },
}

impl View for PassiveExclusionReason {
    type V = ReasonView;

    open spec fn view(&self) -> ReasonView {
        match *self {
            PassiveExclusionReason::ConditionFailed(condition, detail) =>
                ReasonView::ConditionFailed(condition, detail@),
            PassiveExclusionReason::MeterWindowAnomaly { kind, detail } =>
                ReasonView::MeterWindowAnomaly { kind, detail: detail@ },
            PassiveExclusionReason::ExternalValidationMismatch { detail } =>
                ReasonView::ExternalValidationMismatch { detail: detail@ },
        }
    }
}

impl ReasonView {
    /// The name under which the reason is counted.
    pub open spec fn key(self) -> Seq<char> {
        match self {
            ReasonView::ConditionFailed(condition, _) => condition.name(),
            ReasonView::MeterWindowAnomaly { .. } => "meter_window_anomaly"@,
            ReasonView::ExternalValidationMismatch { .. } => "external_validation_mismatch"@,
        }
    }

    /// The reason in its own words.
    pub open spec fn detail_text(self) -> Seq<char> {
        match self {
            ReasonView::ConditionFailed(_, detail) => detail,
            ReasonView::MeterWindowAnomaly { detail, .. } => detail,
            ReasonView::ExternalValidationMismatch { detail } => detail,
        }
    }

    /// The reason in one line.
    pub open spec fn text(self) -> Seq<char> {
        match self {
            ReasonView::ConditionFailed(condition, detail) => condition.name() + ": "@ + detail,
            ReasonView::MeterWindowAnomaly { kind, detail } => "meter_window_anomaly ("@
                + kind.name() + "): "@ + detail,
            ReasonView::ExternalValidationMismatch { detail } => "external_validation_mismatch: "@
                + detail,
        }
    }
}

impl PassiveExclusionReason {
    pub fn condition_key(&self) -> (key: &'static str)
        ensures
            key@ == self@.key(),
    {
        match self {
            PassiveExclusionReason::ConditionFailed(condition, _) => condition.as_str(),
            PassiveExclusionReason::MeterWindowAnomaly { .. } => "meter_window_anomaly",
            PassiveExclusionReason::ExternalValidationMismatch { .. } =>
                "external_validation_mismatch",
        }
    }

    pub fn detail(&self) -> (detail: &str)
        ensures
            detail@ == self@.detail_text(),
    {
        match self {
            PassiveExclusionReason::ConditionFailed(_, detail) => detail.as_str(),
            PassiveExclusionReason::MeterWindowAnomaly { detail, .. } => detail.as_str(),
            PassiveExclusionReason::ExternalValidationMismatch { detail } => detail.as_str(),
        }
    }

    /// Renders the reason in one line.
    pub fn message(&self) -> (line: String)
        ensures
            line@ == self@.text(),
    {
        match self {
            PassiveExclusionReason::ConditionFailed(condition, detail) => {
                let mut line: String = condition.as_str().to_owned();
                line.append(": ");
                line.append(detail.as_str());
                line
            },
            PassiveExclusionReason::MeterWindowAnomaly { kind, detail } => {
                let mut line: String = "meter_window_anomaly (".to_owned();
                line.append(kind.as_str());
                line.append("): ");
                line.append(detail.as_str());
                line
            },
            PassiveExclusionReason::ExternalValidationMismatch { detail } => {
                let mut line: String = "external_validation_mismatch: ".to_owned();
                line.append(detail.as_str());
                line
            },
        }
    }
}

/// One interval evaluated for passive calibration.
#[derive(Debug, Clone, PartialEq, Eq)]
pub struct CandidateInterval {
    pub interval_id: String,
    pub account_id: i64,
    pub account_name: String,
    pub provider: ProviderKey,
    pub plan_tier: PlanTier,
    pub window_semantic_key: WindowSemanticKey,
    pub start_at: UtcTimestamp,
    pub end_at: UtcTimestamp,
    pub start_observation: Option<FitObservation>,
    pub end_observation: Option<FitObservation>,
    pub start_settled: bool,
    pub end_settled: bool,
    pub plan_tier_start: PlanTier,
    pub plan_tier_end: PlanTier,
    pub reset_inside: bool,
    pub meter_coverage_complete: bool,
    pub exclusivity_permits_passive: bool,
    pub has_overlapping_session_or_consumer: bool,
    pub has_inferred_account_attribution: bool,
    pub has_estimated_tokens: bool,
    pub has_unknown_token_components: bool,
    pub contributing_credits: Credits,
    pub anomaly_exclusions: Vec<WindowAnomalyKind>,
    pub has_external_validation_mismatch: bool,
}

impl CandidateInterval {
    /// Whether a condition holds of the interval.
    pub open spec fn meets(self, condition: PassiveEligibilityCondition) -> bool {
        match condition {
            PassiveEligibilityCondition::HighConfidenceAccountAttribution =>
                !self.has_inferred_account_attribution,
            PassiveEligibilityCondition::MeterObservationsOnBothSides =>
                self.start_observation is Some && self.end_observation is Some,
            PassiveEligibilityCondition::NoResetInside => !self.reset_inside,
            PassiveEligibilityCondition::UnchangedPlanTier => self.plan_tier_start@
                == self.plan_tier_end@,
            PassiveEligibilityCondition::ExactContributingUsage => !self.has_estimated_tokens,
            PassiveEligibilityCondition::NoUnknownTokenComponents =>
                !self.has_unknown_token_components,
            PassiveEligibilityCondition::SufficientMeterCoverage => self.meter_coverage_complete,
            PassiveEligibilityCondition::NoSecondLocalSessionOrConsumer =>
                !self.has_overlapping_session_or_consumer,
            PassiveEligibilityCondition::ExclusivityPolicyPermitsPassive =>
                self.exclusivity_permits_passive,
            PassiveEligibilityCondition::ServerSideSettlementSatisfied => self.start_settled
                && self.end_settled,
        }
    }

    /// What is said where a condition does not hold of the interval.
    pub open spec fn failure(self, condition: PassiveEligibilityCondition) -> Seq<char> {
        match condition {
            PassiveEligibilityCondition::HighConfidenceAccountAttribution =>
                "inferred account attribution makes interval ineligible"@,
            PassiveEligibilityCondition::MeterObservationsOnBothSides =>
                "missing meter observation at interval boundary"@,
            PassiveEligibilityCondition::NoResetInside =>
                "quota reset crossing detected inside interval"@,
            PassiveEligibilityCondition::UnchangedPlanTier =>
                "plan tier changed across interval: '"@ + self.plan_tier_start@ + "' -> '"@
                    + self.plan_tier_end@ + "'"@,
            PassiveEligibilityCondition::ExactContributingUsage =>
                "estimated token usage makes interval ineligible"@,
            PassiveEligibilityCondition::NoUnknownTokenComponents =>
                "unknown token components present in usage"@,
            PassiveEligibilityCondition::SufficientMeterCoverage =>
                "insufficient meter coverage around interval"@,
            PassiveEligibilityCondition::NoSecondLocalSessionOrConsumer =>
                "overlapping local session or account consumer detected"@,
            PassiveEligibilityCondition::ExclusivityPolicyPermitsPassive => "account '"@
                + self.account_name@ + "' exclusivity policy forbids passive fitting"@,
            PassiveEligibilityCondition::ServerSideSettlementSatisfied =>
                "interval boundaries not bounded by sufficiently settled meter regions"@,
        }
    }

    /// An interval of which every condition holds and against which nothing is recorded.
    pub fn eligible_fixture(interval_id: &str) -> (interval: Self)
        ensures
            interval.interval_id@ == interval_id@,
            interval.account_id == 1,
            interval.account_name@ == "work-primary"@,
            interval.provider@ == "anthropic"@,
            interval.plan_tier@ == "pro-5h"@,
            interval.window_semantic_key@ == "five_hour"@,
            interval.start_at.nanos == 1_000_000_000,
            interval.end_at.nanos == 2_000_000_000,
            interval.start_observation matches Some(o) && o.evidence_id@ == "ev-start"@ && o.at
                == interval.start_at && o.quota_used_ppm == 100_000 && o.reported_resolution_ppm
                == 10_000 && o.quantization is RoundedToNearest && o.cumulative_credits.micros == 0,
            interval.end_observation matches Some(o) && o.evidence_id@ == "ev-end"@ && o.at
                == interval.end_at && o.quota_used_ppm == 150_000 && o.reported_resolution_ppm
                == 10_000 && o.quantization is RoundedToNearest && o.cumulative_credits.micros
                == 5_000_000,
            interval.plan_tier_start@ == "pro-5h"@,
            interval.contributing_credits.micros == 5_000_000,
            exclusion_reasons(interval) == Seq::<ReasonView>::empty(),
    {
        let now: UtcTimestamp = UtcTimestamp::from_unix_nanos(1_000_000_000);
        let later: UtcTimestamp = UtcTimestamp::from_unix_nanos(2_000_000_000);
        let start: FitObservation = FitObservation::new(
            EvidenceId::new("ev-start"),
            now,
            100_000,
            10_000,
            QuantizationSemantics::RoundedToNearest,
            Credits::from_micros(0),
        );
        let end: FitObservation = FitObservation::new(
            EvidenceId::new("ev-end"),
            later,
            150_000,
            10_000,
            QuantizationSemantics::RoundedToNearest,
            Credits::from_micros(5_000_000),
        );
        let interval: CandidateInterval = CandidateInterval {
            interval_id: interval_id.to_owned(),
            account_id: 1,
            account_name: "work-primary".to_owned(),
            provider: ProviderKey::new("anthropic"),
            plan_tier: PlanTier::new("pro-5h"),
            window_semantic_key: WindowSemanticKey::new("five_hour"),
            start_at: now,
            end_at: later,
            start_observation: Some(start),
            end_observation: Some(end),
            start_settled: true,
            end_settled: true,
            plan_tier_start: PlanTier::new("pro-5h"),
            plan_tier_end: PlanTier::new("pro-5h"),
            reset_inside: false,
            meter_coverage_complete: true,
            exclusivity_permits_passive: true,
            has_overlapping_session_or_consumer: false,
            has_inferred_account_attribution: false,
            has_estimated_tokens: false,
            has_unknown_token_components: false,
            contributing_credits: Credits::from_micros(5_000_000),
            anomaly_exclusions: Vec::new(),
            has_external_validation_mismatch: false,
        };
        assert(exclusion_reasons(interval) =~= Seq::empty());
        interval
    }
}

/// A list with one more reason, where a condition fails.
pub open spec fn with_failure(
    reasons: Seq<ReasonView>,
    interval: CandidateInterval,
    condition: PassiveEligibilityCondition,
) -> Seq<ReasonView> {
    if interval.meets(condition) {
        reasons
    } else {
        reasons.push(ReasonView::ConditionFailed(condition, interval.failure(condition)))
    }
}

/// The failed conditions of an interval, in order.
pub open spec fn failed_conditions(interval: CandidateInterval) -> Seq<ReasonView> {
    let r0 = Seq::empty();
    let r1 = with_failure(
        r0,
        interval,
        PassiveEligibilityCondition::HighConfidenceAccountAttribution,
    );
    let r2 = with_failure(
        r1,
        interval,
        PassiveEligibilityCondition::MeterObservationsOnBothSides,
    );
    let r3 = with_failure(r2, interval, PassiveEligibilityCondition::NoResetInside);
    let r4 = with_failure(r3, interval, PassiveEligibilityCondition::UnchangedPlanTier);
    let r5 = with_failure(r4, interval, PassiveEligibilityCondition::ExactContributingUsage);
    let r6 = with_failure(r5, interval, PassiveEligibilityCondition::NoUnknownTokenComponents);
    let r7 = with_failure(r6, interval, PassiveEligibilityCondition::SufficientMeterCoverage);
    let r8 = with_failure(
        r7,
        interval,
        PassiveEligibilityCondition::NoSecondLocalSessionOrConsumer,
    );
    let r9 = with_failure(
        r8,
        interval,
        PassiveEligibilityCondition::ExclusivityPolicyPermitsPassive,
    );
    with_failure(r9, interval, PassiveEligibilityCondition::ServerSideSettlementSatisfied)
}

/// The reason an anomaly gives.
pub open spec fn anomaly_reason(kind: WindowAnomalyKind) -> ReasonView {
    ReasonView::MeterWindowAnomaly {
        kind,
        detail: "interval contains typed meter-window anomaly exclusion '"@ + kind.name() + "'"@,
    }
}

/// Every reason why an interval does not count, in order.
pub open spec fn exclusion_reasons(interval: CandidateInterval) -> Seq<ReasonView> {
    let conditions = failed_conditions(interval) + interval.anomaly_exclusions@.map_values(
        |kind: WindowAnomalyKind| anomaly_reason(kind),
    );
    if interval.has_external_validation_mismatch {
        conditions.push(
            ReasonView::ExternalValidationMismatch {
                detail: "interval carries persisted external-validation mismatch annotation"@,
            },
        )
    } else {
        conditions
    }
}

/// What some reasons say.
pub open spec fn reason_views(reasons: Seq<PassiveExclusionReason>) -> Seq<ReasonView> {
    reasons.map_values(|r: PassiveExclusionReason| r@)
}

fn note_failure(
    reasons: &mut Vec<PassiveExclusionReason>,
    interval: &CandidateInterval,
    condition: PassiveEligibilityCondition,
    meets: bool,
    detail: String,
)
    requires
        meets == interval.meets(condition),
        !meets ==> detail@ == interval.failure(condition),
    ensures
        reason_views(final(reasons)@) == with_failure(
            reason_views(old(reasons)@),
            *interval,
            condition,
        ),
{
    let ghost before = reasons@;
    if !meets {
        reasons.push(PassiveExclusionReason::ConditionFailed(condition, detail));
        assert(reason_views(reasons@) =~= reason_views(before).push(reasons@.last()@));
    }
}

fn tier_change_text(start: &PlanTier, end: &PlanTier) -> (text: String)
    ensures
        text@ == "plan tier changed across interval: '"@ + start@ + "' -> '"@ + end@ + "'"@,
{
    let mut text: String = "plan tier changed across interval: '".to_owned();
    text.append(start.as_str());
    text.append("' -> '");
    text.append(end.as_str());
    text.append("'");
    text
}

fn exclusivity_text(account: &str) -> (text: String)
    ensures
        text@ == "account '"@ + account@ + "' exclusivity policy forbids passive fitting"@,
{
    let mut text: String = "account '".to_owned();
    text.append(account);
    text.append("' exclusivity policy forbids passive fitting");
    text
}

/// Evaluates every condition and annotation of one interval and returns each reason
/// against it.
pub fn evaluate_interval(interval: &CandidateInterval) -> (reasons: Vec<PassiveExclusionReason>)
    ensures
        reason_views(reasons@) == exclusion_reasons(*interval),
{
    let mut reasons: Vec<PassiveExclusionReason> = Vec::new();
    assert(reason_views(reasons@) =~= Seq::empty());
    note_failure(
        &mut reasons,
        interval,
        PassiveEligibilityCondition::HighConfidenceAccountAttribution,
        !interval.has_inferred_account_attribution,
        "inferred account attribution makes interval ineligible".to_owned(),
    );
    note_failure(
        &mut reasons,
        interval,
        PassiveEligibilityCondition::MeterObservationsOnBothSides,
        interval.start_observation.is_some() && interval.end_observation.is_some(),
        "missing meter observation at interval boundary".to_owned(),
    );
    note_failure(
        &mut reasons,
        interval,
        PassiveEligibilityCondition::NoResetInside,
        !interval.reset_inside,
        "quota reset crossing detected inside interval".to_owned(),
    );
    note_failure(
        &mut reasons,
        interval,
        PassiveEligibilityCondition::UnchangedPlanTier,
        interval.plan_tier_start.same(&interval.plan_tier_end),
        tier_change_text(&interval.plan_tier_start, &interval.plan_tier_end),
    );
    note_failure(
        &mut reasons,
        interval,
        PassiveEligibilityCondition::ExactContributingUsage,
        !interval.has_estimated_tokens,
        "estimated token usage makes interval ineligible".to_owned(),
    );
    note_failure(
        &mut reasons,
        interval,
        PassiveEligibilityCondition::NoUnknownTokenComponents,
        !interval.has_unknown_token_components,
        "unknown token components present in usage".to_owned(),
    );
    note_failure(
        &mut reasons,
        interval,
        PassiveEligibilityCondition::SufficientMeterCoverage,
        interval.meter_coverage_complete,
        "insufficient meter coverage around interval".to_owned(),
    );
    note_failure(
        &mut reasons,
        interval,
        PassiveEligibilityCondition::NoSecondLocalSessionOrConsumer,
        !interval.has_overlapping_session_or_consumer,
        "overlapping local session or account consumer detected".to_owned(),
    );
    note_failure(
        &mut reasons,
        interval,
        PassiveEligibilityCondition::ExclusivityPolicyPermitsPassive,
        interval.exclusivity_permits_passive,
        exclusivity_text(interval.account_name.as_str()),
    );
    note_failure(
        &mut reasons,
        interval,
        PassiveEligibilityCondition::ServerSideSettlementSatisfied,
        interval.start_settled && interval.end_settled,
        "interval boundaries not bounded by sufficiently settled meter regions".to_owned(),
    );
    let ghost failed = reason_views(reasons@);
    let ghost as_reason = |kind: WindowAnomalyKind| anomaly_reason(kind);
    let ghost anomalies = interval.anomaly_exclusions@;
    let mut i: usize = 0;
    assert(reason_views(reasons@) =~= failed + anomalies.take(0).map_values(as_reason));
    while i < interval.anomaly_exclusions.len()
        invariant
            i <= anomalies.len(),
            anomalies == interval.anomaly_exclusions@,
            as_reason == (|kind: WindowAnomalyKind| anomaly_reason(kind)),
            reason_views(reasons@) == failed + anomalies.take(i as int).map_values(as_reason),
        decreases anomalies.len() - i,
    {
        let kind: WindowAnomalyKind = interval.anomaly_exclusions[i];
        let mut detail: String = "interval contains typed meter-window anomaly exclusion '".to_owned();
        detail.append(kind.as_str());
        detail.append("'");
        let ghost before = reasons@;
        reasons.push(PassiveExclusionReason::MeterWindowAnomaly { kind, detail });
        proof {
            assert(reasons@.last()@ == anomaly_reason(kind));
            assert(reason_views(reasons@) =~= reason_views(before).push(anomaly_reason(kind)));
            assert(anomalies.take(i + 1).map_values(as_reason) =~= anomalies.take(
                i as int,
            ).map_values(as_reason).push(anomaly_reason(kind)));
            assert(reason_views(reasons@) =~= failed + anomalies.take(i + 1).map_values(as_reason));
        }
        i = i + 1;
    }
    assert(anomalies.take(anomalies.len() as int) =~= anomalies);
    let ghost conditions = reasons@;
    if interval.has_external_validation_mismatch {
        reasons.push(
            PassiveExclusionReason::ExternalValidationMismatch {
                detail: "interval carries persisted external-validation mismatch annotation".to_owned(),
            },
        );
        assert(reason_views(reasons@) =~= reason_views(conditions).push(reasons@.last()@));
    }
    reasons
}

/// Whether an interval counts.
pub open spec fn eligible(interval: CandidateInterval) -> bool {
    exclusion_reasons(interval).len() == 0
}

/// An interval counts exactly where all ten conditions hold and neither an anomaly nor
/// a mismatch is recorded; and every condition that fails is among the reasons,
/// whatever else fails.
pub proof fn law_every_failed_condition_is_reported(
    interval: CandidateInterval,
    condition: PassiveEligibilityCondition,
)
    ensures
        eligible(interval) <==> {
            &&& forall|c: PassiveEligibilityCondition| #[trigger] interval.meets(c)
            &&& interval.anomaly_exclusions@.len() == 0
            &&& !interval.has_external_validation_mismatch
        },
        exclusion_reasons(interval).contains(
            ReasonView::ConditionFailed(condition, interval.failure(condition)),
        ) <==> !interval.meets(condition),
{
    let reasons = exclusion_reasons(interval);
    let failed = failed_conditions(interval);
    let wanted = ReasonView::ConditionFailed(condition, interval.failure(condition));
    let r1 = with_failure(
        Seq::empty(),
        interval,
        PassiveEligibilityCondition::HighConfidenceAccountAttribution,
    );
    let r2 = with_failure(
        r1,
        interval,
        PassiveEligibilityCondition::MeterObservationsOnBothSides,
    );
    let r3 = with_failure(r2, interval, PassiveEligibilityCondition::NoResetInside);
    let r4 = with_failure(r3, interval, PassiveEligibilityCondition::UnchangedPlanTier);
    let r5 = with_failure(r4, interval, PassiveEligibilityCondition::ExactContributingUsage);
    let r6 = with_failure(r5, interval, PassiveEligibilityCondition::NoUnknownTokenComponents);
    let r7 = with_failure(r6, interval, PassiveEligibilityCondition::SufficientMeterCoverage);
    let r8 = with_failure(
        r7,
        interval,
        PassiveEligibilityCondition::NoSecondLocalSessionOrConsumer,
    );
    let r9 = with_failure(
        r8,
        interval,
        PassiveEligibilityCondition::ExclusivityPolicyPermitsPassive,
    );
    let empty = Seq::<ReasonView>::empty();
    lemma_with_failure(
        empty,
        interval,
        PassiveEligibilityCondition::HighConfidenceAccountAttribution,
        wanted,
    );
    lemma_with_failure(
        r1,
        interval,
        PassiveEligibilityCondition::MeterObservationsOnBothSides,
        wanted,
    );
    lemma_with_failure(r2, interval, PassiveEligibilityCondition::NoResetInside, wanted);
    lemma_with_failure(r3, interval, PassiveEligibilityCondition::UnchangedPlanTier, wanted);
    lemma_with_failure(r4, interval, PassiveEligibilityCondition::ExactContributingUsage, wanted);
    lemma_with_failure(r5, interval, PassiveEligibilityCondition::NoUnknownTokenComponents, wanted);
    lemma_with_failure(r6, interval, PassiveEligibilityCondition::SufficientMeterCoverage, wanted);
    lemma_with_failure(
        r7,
        interval,
        PassiveEligibilityCondition::NoSecondLocalSessionOrConsumer,
        wanted,
    );
    lemma_with_failure(
        r8,
        interval,
        PassiveEligibilityCondition::ExclusivityPolicyPermitsPassive,
        wanted,
    );
    lemma_with_failure(
        r9,
        interval,
        PassiveEligibilityCondition::ServerSideSettlementSatisfied,
        wanted,
    );
    assert(failed.contains(wanted) <==> !interval.meets(condition));
    if failed.contains(wanted) {
        let k = choose|k: int| 0 <= k < failed.len() && failed[k] == wanted;
        assert(reasons[k] == wanted);
    }
    if reasons.contains(wanted) {
        let k = choose|k: int| 0 <= k < reasons.len() && reasons[k] == wanted;
        if k < failed.len() {
            assert(failed[k] == wanted);
        }
    }
    if eligible(interval) {
        assert forall|c: PassiveEligibilityCondition| #[trigger] interval.meets(c) by {
            match c {
                _ => {},
            }
        }
    }
    assert(interval.meets(PassiveEligibilityCondition::HighConfidenceAccountAttribution)
        && interval.meets(PassiveEligibilityCondition::MeterObservationsOnBothSides)
        && interval.meets(PassiveEligibilityCondition::NoResetInside) && interval.meets(
        PassiveEligibilityCondition::UnchangedPlanTier,
    ) && interval.meets(PassiveEligibilityCondition::ExactContributingUsage) && interval.meets(
        PassiveEligibilityCondition::NoUnknownTokenComponents,
    ) && interval.meets(PassiveEligibilityCondition::SufficientMeterCoverage) && interval.meets(
        PassiveEligibilityCondition::NoSecondLocalSessionOrConsumer,
    ) && interval.meets(PassiveEligibilityCondition::ExclusivityPolicyPermitsPassive)
        && interval.meets(PassiveEligibilityCondition::ServerSideSettlementSatisfied)
        ==> failed.len() == 0);
}

proof fn lemma_with_failure(
    reasons: Seq<ReasonView>,
    interval: CandidateInterval,
    condition: PassiveEligibilityCondition,
    wanted: ReasonView,
)
    ensures
        with_failure(reasons, interval, condition).contains(wanted) <==> reasons.contains(wanted)
            || (!interval.meets(condition) && wanted == ReasonView::ConditionFailed(
            condition,
            interval.failure(condition),
        )),
        with_failure(reasons, interval, condition).len() == 0 <==> reasons.len() == 0
            && interval.meets(condition),
{
    let out = with_failure(reasons, interval, condition);
    if !interval.meets(condition) {
        assert(out[reasons.len() as int] == ReasonView::ConditionFailed(
            condition,
            interval.failure(condition),
        ));
        if reasons.contains(wanted) {
            let k = choose|k: int| 0 <= k < reasons.len() && reasons[k] == wanted;
            assert(out[k] == wanted);
        }
        if out.contains(wanted) {
            let k = choose|k: int| 0 <= k < out.len() && out[k] == wanted;
            if k < reasons.len() {
                assert(reasons[k] == wanted);
            }
        }
    }
}

/// Whether one interval meets everything that another meets.
pub open spec fn no_stricter(relaxed: CandidateInterval, strict: CandidateInterval) -> bool {
    &&& forall|c: PassiveEligibilityCondition| #[trigger] strict.meets(c) ==> relaxed.meets(c)
    &&& strict.anomaly_exclusions@.len() == 0 ==> relaxed.anomaly_exclusions@.len() == 0
    &&& !strict.has_external_validation_mismatch ==> !relaxed.has_external_validation_mismatch
}

/// How many intervals count.
pub open spec fn eligible_count(intervals: Seq<CandidateInterval>) -> nat
    decreases intervals.len(),
{
    if intervals.len() == 0 {
        0
    } else {
        eligible_count(intervals.drop_last()) + if eligible(intervals.last()) {
            1nat
        } else {
            0nat
        }
    }
}

/// Relaxing conditions never makes fewer intervals count, and tightening them never
/// makes more count.
pub proof fn law_relaxing_never_loses_intervals(
    relaxed: Seq<CandidateInterval>,
    strict: Seq<CandidateInterval>,
)
    requires
        relaxed.len() == strict.len(),
        forall|i: int|
            0 <= i < strict.len() ==> no_stricter(#[trigger] relaxed[i], #[trigger] strict[i]),
    ensures
        eligible_count(strict) <= eligible_count(relaxed),
    decreases strict.len(),
{
    if strict.len() > 0 {
        let n = strict.len() - 1;
        assert(no_stricter(relaxed[n], strict[n]));
        assert forall|i: int| 0 <= i < n implies no_stricter(
            #[trigger] relaxed.drop_last()[i],
            #[trigger] strict.drop_last()[i],
        ) by {
            assert(no_stricter(relaxed[i], strict[i]));
        }
        law_relaxing_never_loses_intervals(relaxed.drop_last(), strict.drop_last());
        law_every_failed_condition_is_reported(
            strict[n],
            PassiveEligibilityCondition::NoResetInside,
        );
        law_every_failed_condition_is_reported(
            relaxed[n],
            PassiveEligibilityCondition::NoResetInside,
        );
    }
}

/// Each condition reads its own fact of the interval, and an interval is eligible exactly
/// where all of them hold, no anomaly touches it and no validation contradicts it.
pub proof fn law_each_condition_reads_its_own_fact(interval: CandidateInterval)
    ensures
        interval.meets(PassiveEligibilityCondition::HighConfidenceAccountAttribution)
            <==> !interval.has_inferred_account_attribution,
        interval.meets(PassiveEligibilityCondition::MeterObservationsOnBothSides)
            <==> interval.start_observation is Some && interval.end_observation is Some,
        interval.meets(PassiveEligibilityCondition::NoResetInside) <==> !interval.reset_inside,
        interval.meets(PassiveEligibilityCondition::UnchangedPlanTier)
            <==> interval.plan_tier_start@ == interval.plan_tier_end@,
        interval.meets(PassiveEligibilityCondition::ExactContributingUsage)
            <==> !interval.has_estimated_tokens,
        interval.meets(PassiveEligibilityCondition::NoUnknownTokenComponents)
            <==> !interval.has_unknown_token_components,
        interval.meets(PassiveEligibilityCondition::SufficientMeterCoverage)
            <==> interval.meter_coverage_complete,
        interval.meets(PassiveEligibilityCondition::NoSecondLocalSessionOrConsumer)
            <==> !interval.has_overlapping_session_or_consumer,
        interval.meets(PassiveEligibilityCondition::ExclusivityPolicyPermitsPassive)
            <==> interval.exclusivity_permits_passive,
        interval.meets(PassiveEligibilityCondition::ServerSideSettlementSatisfied)
            <==> interval.start_settled && interval.end_settled,
        eligible(interval) <==> {
            &&& !interval.has_inferred_account_attribution
            &&& interval.start_observation is Some
            &&& interval.end_observation is Some
            &&& !interval.reset_inside
            &&& interval.plan_tier_start@ == interval.plan_tier_end@
            &&& !interval.has_estimated_tokens
            &&& !interval.has_unknown_token_components
            &&& interval.meter_coverage_complete
            &&& !interval.has_overlapping_session_or_consumer
            &&& interval.exclusivity_permits_passive
            &&& interval.start_settled
            &&& interval.end_settled
            &&& interval.anomaly_exclusions@.len() == 0
            &&& !interval.has_external_validation_mismatch
        },
{
    law_every_failed_condition_is_reported(
        interval,
        PassiveEligibilityCondition::NoResetInside,
    );
    assert(eligible(interval) ==> interval.meets(
        PassiveEligibilityCondition::HighConfidenceAccountAttribution,
    ) && interval.meets(PassiveEligibilityCondition::MeterObservationsOnBothSides)
        && interval.meets(PassiveEligibilityCondition::NoResetInside) && interval.meets(
        PassiveEligibilityCondition::UnchangedPlanTier,
    ) && interval.meets(PassiveEligibilityCondition::ExactContributingUsage) && interval.meets(
        PassiveEligibilityCondition::NoUnknownTokenComponents,
    ) && interval.meets(PassiveEligibilityCondition::SufficientMeterCoverage) && interval.meets(
        PassiveEligibilityCondition::NoSecondLocalSessionOrConsumer,
    ) && interval.meets(PassiveEligibilityCondition::ExclusivityPolicyPermitsPassive)
        && interval.meets(PassiveEligibilityCondition::ServerSideSettlementSatisfied));
}

/// The reasons are the failed conditions, then one for each anomaly in the order they are
/// given, then the contradicting validation: as many as there are of each.
pub proof fn law_anomalies_follow_the_conditions(interval: CandidateInterval, i: int)
    ensures
        ({
            let failed = failed_conditions(interval).len();
            let anomalies = interval.anomaly_exclusions@.len();
            let reasons = exclusion_reasons(interval);
            &&& reasons.len() == failed + anomalies + if interval.has_external_validation_mismatch {
                1nat
            } else {
                0nat
            }
            &&& 0 <= i < anomalies ==> match reasons[failed + i] {
                ReasonView::MeterWindowAnomaly { kind, detail } => kind
                    == interval.anomaly_exclusions@[i] && detail
                    == "interval contains typed meter-window anomaly exclusion '"@ + kind.name()
                    + "'"@,
                _ => false,
            }
            &&& interval.has_external_validation_mismatch
                ==> reasons.last() is ExternalValidationMismatch
            &&& 0 <= i < failed ==> reasons[i] is ConditionFailed
        }),
{
}

} // verus!
