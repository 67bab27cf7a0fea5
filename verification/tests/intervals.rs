//! Passive intervals out of readings, and the small vocabularies around them.

use aub::calibration::activation::{
    check_activation, check_cost_model_completeness, is_measurable, ActivationActor,
    ActivationPolicy, ActivationRefusal, ActivationRequest, EvidenceRole, RecordedValidation,
};
use aub::calibration::contamination::{
    ContaminationMagnitude, ContaminationMarkerPoint, ContaminationThresholds,
    ContaminationThresholdsError, ContaminationVerdict,
};
use aub::calibration::fitter::FitObservation;
use aub::calibration::passive::{
    evaluate_interval, CandidateInterval, PassiveEligibilityCondition, WindowAnomalyKind,
};
use aub::calibration::passive_intervals::{
    candidate_interval, has_inferred_attribution, interval_pairs, is_selected, summarize_usage,
    window_intervals, AnomalyExclusion, IntervalFacts, IntervalPair, PassiveObservation,
    PassiveScope, PassiveUsage, UsageSummary,
};
use aub::calibration::passive_report::{
    evaluate_and_report_passive_intervals, passive_fit_inputs, passive_totals_fit,
};
use aub::calibration::settlement::{
    SettlementCoverage, SettlementCriterion, SettlementObservationSeries, SettlementPolicy,
    SettlementPolicyError,
};
use aub::domain::{
    Credits, MonotonicDuration, QuantizationSemantics, QuotaFractionPpm, QuotaUsed,
    ReportedResolution, TokenKind, UtcTimestamp,
};
use aub::error::Error;
use aub::ids::{EvidenceId, PlanTier, ProviderKey, WindowSemanticKey};
use aub::records::{ConditionNumber, EvidenceFingerprint};
use aub::sets::TextSet;

const MINUTE: i64 = 60_000_000_000;

fn at(nanos: i64) -> UtcTimestamp {
    UtcTimestamp::from_unix_nanos(nanos)
}

fn fraction(ppm: i32) -> QuotaFractionPpm {
    QuotaFractionPpm::new(ppm).unwrap()
}

fn resolution(ppm: i32) -> ReportedResolution {
    ReportedResolution::new(fraction(ppm)).unwrap()
}

fn reading(minutes: i64, used: i32) -> PassiveObservation {
    PassiveObservation {
        content_hash: format!("h{minutes}"),
        received_at: at(minutes * MINUTE),
        quota_used: QuotaUsed::new(fraction(used)),
        reported_resolution: resolution(10_000),
        quantization: QuantizationSemantics::RoundedToNearest,
        resets_at: None,
    }
}

#[test]
fn neighbouring_readings_pair_up_where_nothing_settled() {
    let moving: Vec<PassiveObservation> = (0..4).map(|i| reading(i * 5, 100_000 * i as i32)).collect();
    assert_eq!(
        interval_pairs(&moving),
        vec![
            IntervalPair { start: 0, end: 1, settled: false },
            IntervalPair { start: 1, end: 2, settled: false },
            IntervalPair { start: 2, end: 3, settled: false },
        ]
    );
    assert!(interval_pairs(&vec![reading(0, 0)]).is_empty());
    assert!(interval_pairs(&vec![]).is_empty());
}

#[test]
fn settled_plateaus_pair_up_where_there_are_two() {
    let flat: Vec<PassiveObservation> = (0..4).map(|i| reading(i * 5, 100_000)).collect();
    assert_eq!(
        interval_pairs(&flat),
        vec![IntervalPair { start: 2, end: 3, settled: true }]
    );
}

fn scope() -> PassiveScope {
    PassiveScope {
        account_id: 1,
        account_name: "work".to_string(),
        provider: ProviderKey::new("anthropic"),
        plan_tier: PlanTier::new("pro"),
        window_semantic_key: WindowSemanticKey::new("five_hour"),
        permits_passive: true,
    }
}

fn facts() -> IntervalFacts {
    IntervalFacts {
        overlapping_sessions: 1,
        class_eligible: vec![Some(true), None],
        designations: vec!["explicit".to_string()],
        usage: UsageSummary {
            has_estimated_tokens: false,
            has_unknown_token_components: false,
            contributing_credits: Credits::from_micros(7),
        },
        has_external_validation_mismatch: false,
    }
}

#[test]
fn an_interval_gathers_the_facts_about_it() {
    let rows = vec![reading(0, 100_000), reading(5, 150_000)];
    let pair = IntervalPair { start: 0, end: 1, settled: true };
    let clean = candidate_interval(&scope(), &rows, pair, &vec![], &facts());
    assert_eq!(clean.interval_id, "work-0-1");
    assert_eq!(clean.contributing_credits.micros(), 7);
    assert!(evaluate_interval(&clean).is_empty());
    let crowded = IntervalFacts { overlapping_sessions: 2, ..facts() };
    assert!(candidate_interval(&scope(), &rows, pair, &vec![], &crowded)
        .has_overlapping_session_or_consumer);
    let exclusions = vec![
        AnomalyExclusion {
            account_id: 1,
            interval_start_at: at(1),
            interval_end_at: at(2),
            kind: Some(WindowAnomalyKind::PercentageDecreaseWithoutReset),
        },
        AnomalyExclusion {
            account_id: 2,
            interval_start_at: at(1),
            interval_end_at: at(2),
            kind: Some(WindowAnomalyKind::UnexpectedResetTimestampChange),
        },
        AnomalyExclusion {
            account_id: 1,
            interval_start_at: at(5 * MINUTE),
            interval_end_at: at(6 * MINUTE),
            kind: Some(WindowAnomalyKind::UnexpectedResetTimestampChange),
        },
    ];
    let marked = candidate_interval(&scope(), &rows, pair, &exclusions, &facts());
    assert_eq!(
        marked.anomaly_exclusions,
        vec![WindowAnomalyKind::PercentageDecreaseWithoutReset]
    );
    let mut reset = rows.clone();
    reset[1].resets_at = Some(at(MINUTE));
    assert!(candidate_interval(&scope(), &reset, pair, &vec![], &facts()).reset_inside);
    let fallen = vec![reading(0, 100_000), reading(5, 89_999)];
    assert!(candidate_interval(&scope(), &fallen, pair, &vec![], &facts()).reset_inside);
    let held = vec![reading(0, 100_000), reading(5, 90_000)];
    assert!(!candidate_interval(&scope(), &held, pair, &vec![], &facts()).reset_inside);
}

#[test]
fn a_window_yields_one_interval_for_each_pair() {
    let rows = vec![reading(0, 100_000), reading(5, 150_000), reading(10, 300_000)];
    let quiet = IntervalFacts { overlapping_sessions: 0, ..facts() };
    let crowded = IntervalFacts { overlapping_sessions: 3, ..facts() };
    let found = window_intervals(&scope(), &rows, &vec![], &vec![quiet, crowded]);
    let ids: Vec<&str> = found.iter().map(|interval| interval.interval_id.as_str()).collect();
    assert_eq!(ids, vec!["work-0-1", "work-1-2"]);
    assert!(!found[0].has_overlapping_session_or_consumer);
    assert!(found[1].has_overlapping_session_or_consumer);
    assert_eq!(found[0].end_at, found[1].start_at);
    assert!(!found[0].start_settled && !found[1].end_settled);
    assert!(window_intervals(&scope(), &vec![], &vec![], &vec![]).is_empty());
}

#[test]
fn attribution_is_inferred_by_class_or_designation() {
    let inferred = |classes: Vec<Option<bool>>, designations: &[&str]| {
        let list = designations.iter().map(|d| d.to_string()).collect();
        has_inferred_attribution(&classes, &list)
    };
    assert!(!inferred(vec![None, Some(true)], &["explicit"]));
    assert!(inferred(vec![Some(true), Some(false)], &[]));
    for designation in ["conservative_temporal_inference", "unattributed", "inferred"] {
        assert!(inferred(vec![], &[designation]));
    }
    assert!(is_selected(None, "x"));
    assert!(is_selected(Some("x"), "x"));
    assert!(!is_selected(Some("x"), "y"));
}

fn component(kind: &str, class: &str, count: u64) -> PassiveUsage {
    PassiveUsage { evidence_kind: kind.to_string(), token_class: class.to_string(), count }
}

/// 3, 15, 0.3 and 3.75 millionths of a credit a token, each row rounded on its own.
#[test]
fn usage_is_priced_row_by_row() {
    let rows = vec![
        component("exact", "input", 2),
        component("exact", "output", 1),
        component("exact", "cache_read", 5),
        component("exact", "cache_write", 2),
    ];
    let summary = summarize_usage(&rows).unwrap();
    assert_eq!(summary.contributing_credits.micros(), 6 + 15 + 2 + 8);
    assert!(!summary.has_estimated_tokens);
    assert!(!summary.has_unknown_token_components);
    for kind in ["estimated", "estimate-v2", "reconstructed-from-log"] {
        assert!(summarize_usage(&vec![component(kind, "input", 1)]).unwrap().has_estimated_tokens);
    }
    let unknown = summarize_usage(&vec![component("exact", "tool", 9)]).unwrap();
    assert!(unknown.has_unknown_token_components);
    assert_eq!(unknown.contributing_credits.micros(), 0);
}

#[test]
fn every_condition_has_its_own_name() {
    let names: std::collections::BTreeSet<&str> = PassiveEligibilityCondition::all()
        .iter()
        .map(|condition| condition.as_str())
        .collect();
    assert_eq!(names.len(), 10);
    let mut interval = CandidateInterval::eligible_fixture("i");
    interval.reset_inside = true;
    interval.has_external_validation_mismatch = true;
    let reasons = evaluate_interval(&interval);
    assert_eq!(reasons.len(), 2);
    assert_eq!(reasons[0].condition_key(), PassiveEligibilityCondition::NoResetInside.as_str());
    assert_eq!(reasons[1].condition_key(), "external_validation_mismatch");
    assert_eq!(
        reasons[0].detail(),
        "quota reset crossing detected inside interval"
    );
    let report = evaluate_and_report_passive_intervals(&vec![interval], None);
    assert_eq!(report.failing_count("external_validation_mismatch"), Some(1));
    assert_eq!(report.failing_count("unchanged_plan_tier"), Some(0));
    assert_eq!(report.failing_count("no_such_condition"), None);
    assert_eq!(report.candidate_excluded_samples[0].sample_ref, "interval-i");
}

#[test]
fn a_passive_fit_settles_at_one_percentage_point() {
    let mut interval = CandidateInterval::eligible_fixture("a");
    interval.reset_inside = true;
    assert!(passive_fit_inputs(&vec![interval], at(9)).unwrap().is_none());
    let counting = CandidateInterval::eligible_fixture("b");
    let found = passive_fit_inputs(&vec![counting], at(9)).unwrap().unwrap();
    assert_eq!(
        found.experiment.settlement_policy,
        SettlementPolicy::conservative_default(resolution(10_000))
    );
    assert_eq!(found.experiment.knowledge_time, at(9));
}

#[test]
fn totals_of_credits_must_be_representable() {
    let mut large = CandidateInterval::eligible_fixture("a");
    large.contributing_credits = Credits::from_micros(i64::MAX);
    let small = CandidateInterval::eligible_fixture("b");
    assert!(passive_totals_fit(&vec![large.clone()]));
    assert!(!passive_totals_fit(&vec![large.clone(), small.clone()]));
    large.reset_inside = true;
    assert!(passive_totals_fit(&vec![large, small]));
}

#[test]
fn a_settlement_policy_refuses_what_cannot_be() {
    let make = |interval: u64, count: u32, span: u64, window: u64| {
        SettlementCriterion::new(
            MonotonicDuration::from_nanos(interval),
            count,
            MonotonicDuration::from_nanos(span),
            0,
            MonotonicDuration::from_nanos(window),
            resolution(10_000),
        )
    };
    assert_eq!(make(1, 1, 1, 1), Err(SettlementPolicyError::TooFewObservations));
    assert_eq!(make(0, 2, 1, 1), Err(SettlementPolicyError::ZeroSamplingInterval));
    assert_eq!(make(1, 2, 0, 1), Err(SettlementPolicyError::ZeroMinimumSpan));
    assert_eq!(make(1, 2, 1, 0), Err(SettlementPolicyError::ZeroMaximumSettlementWindow));
    assert_eq!(
        make(1, 2, 2, 1),
        Err(SettlementPolicyError::SettlementWindowBeforeMinimumSpan)
    );
    let criterion = make(1, 2, 3, 4).unwrap();
    assert_eq!(criterion.sampling_interval().as_nanos(), 1);
    assert_eq!(criterion.required_observations(), 2);
    assert_eq!(criterion.minimum_span().as_nanos(), 3);
    assert_eq!(criterion.maximum_settlement_window().as_nanos(), 4);
    assert_eq!(criterion.maximum_window().as_nanos(), 4);
    assert_eq!(criterion.maximum_change_resolution_units(), 0);
    assert_eq!(criterion.reported_resolution(), resolution(10_000));
    assert_eq!(
        SettlementPolicy::new(" ", criterion, criterion, None),
        Err(SettlementPolicyError::EmptyVersion)
    );
    assert_eq!(
        SettlementPolicy::new("v", criterion, criterion, Some(" ".to_string())),
        Err(SettlementPolicyError::EmptySharedCriteriaReason)
    );
    let policy = SettlementPolicy::default_for_resolution(resolution(10_000));
    assert_eq!(policy, SettlementPolicy::conservative_default(resolution(10_000)));
    assert!(policy.shared_criteria_reason().is_some());
    for error in [
        SettlementPolicyError::EmptyVersion,
        SettlementPolicyError::TooFewObservations,
        SettlementPolicyError::SharedCriteriaReasonRequired,
    ] {
        assert!(!error.message().is_empty());
    }
}

#[test]
fn coverage_tells_what_was_expected() {
    let short = SettlementCoverage::insufficient(4, 3);
    assert!(!short.is_complete());
    assert_eq!(short.expected_observations(), Some(4));
    assert_eq!(short.observed_observations(), Some(3));
    assert!(SettlementCoverage::complete().is_complete());
    assert_eq!(SettlementCoverage::complete().expected_observations(), None);
    let series = SettlementObservationSeries::complete(at(3), vec![]);
    assert_eq!(series.started_at(), at(3));
    assert!(series.observations().is_empty());
    assert!(series.coverage().is_complete());
}

#[test]
fn contamination_is_described() {
    let thresholds = ContaminationThresholds::conservative_default();
    assert_eq!(thresholds.pre_burn_max_movement_ppm(), 10_000);
    assert_eq!(thresholds.post_settlement_max_movement_ppm(), 10_000);
    assert_eq!(thresholds.post_settlement_grace().as_nanos(), 3_600_000_000_000);
    assert_eq!(thresholds.flat_credits_min_meter_movement_ppm(), 20_000);
    assert_eq!(thresholds.flat_credits_max_local().micros(), 0);
    for error in [
        ContaminationThresholdsError::EmptyVersion,
        ContaminationThresholdsError::PostSettlementGraceIsZero,
    ] {
        assert!(!error.message().is_empty());
    }
    let marker = ContaminationMarkerPoint::new("cli", "s1", "work", at(4));
    assert_eq!(marker.session_source(), "cli");
    assert_eq!(marker.session_native(), "s1");
    assert_eq!(marker.logical_account(), "work");
    assert_eq!(marker.session_label(), "cli/s1");
    let magnitude = ContaminationMagnitude::OverlappingSession {
        sessions: vec!["cli/s1".to_string(), "cli/s2".to_string()],
    };
    assert!(magnitude.describe().contains("cli/s1"));
    assert_eq!(magnitude.signal().label(), "overlapping_session");
}

fn texts(items: &[&str]) -> TextSet {
    let mut set = TextSet::new();
    for item in items {
        set.insert(item);
    }
    set
}

#[test]
fn an_activation_at_its_bounds_passes() {
    let (training, validation) = (texts(&["t"]), texts(&["v"]));
    let actor = ActivationActor::new("operator").unwrap();
    let policy = ActivationPolicy::new(
        "v1",
        Credits::from_micros(100),
        ConditionNumber::from_micros(30),
    )
    .unwrap();
    assert_eq!(policy.max_out_of_sample_residual().micros(), 100);
    assert_eq!(policy.max_condition_number().micros(), 30);
    let verdict = ContaminationVerdict::clean();
    let request = ActivationRequest {
        actor: &actor,
        policy: &policy,
        training: &training,
        validation: &validation,
        contamination: &verdict,
    };
    let recorded = |residual: i64, condition: i64| RecordedValidation {
        policy_version: "v1".to_string(),
        held_out_residual: Some(Credits::from_micros(residual)),
        condition_number: Some(ConditionNumber::from_micros(condition)),
        fitting_evidence: EvidenceFingerprint::from_inputs(&training),
        validation_evidence: EvidenceFingerprint::from_inputs(&validation),
    };
    assert_eq!(check_activation(&request, &recorded(100, 30)), Ok(()));
    assert!(check_activation(&request, &recorded(101, 30)).is_err());
    assert!(check_activation(&request, &recorded(100, 31)).is_err());
}

#[test]
fn an_incomplete_cost_model_is_refused_with_what_it_lacks() {
    assert_eq!(check_cost_model_completeness("cm", &vec![]), Ok(()));
    let refusal = check_cost_model_completeness("cm", &vec!["rate".to_string()]).unwrap_err();
    assert_eq!(
        refusal,
        ActivationRefusal::IncompleteCostModel {
            cost_model_id: "cm".to_string(),
            missing: vec!["rate".to_string()],
        }
    );
    assert!(refusal.message().contains("cm"));
    assert!(refusal.message().contains("rate"));
    let mismatch = ActivationRefusal::EvidenceMismatch { role: EvidenceRole::Validation };
    assert!(mismatch.message().contains(EvidenceRole::Validation.label()));
    assert!(matches!(mismatch.into_error(), Error::ThresholdNotMet(_)));
}

#[test]
fn readings_too_far_apart_are_not_measurable() {
    let observed = |used: i64, credits: i64| {
        FitObservation::new(
            EvidenceId::new("e"),
            at(1),
            used,
            10,
            QuantizationSemantics::Exact,
            Credits::from_micros(credits),
        )
    };
    assert!(is_measurable(&vec![observed(0, 0), observed(1_000_000, 1_000_000_000)]));
    assert!(!is_measurable(&vec![observed(i64::MIN, i64::MIN), observed(i64::MAX, i64::MAX)]));
}

#[test]
fn token_kinds_read_back() {
    for kind in [TokenKind::Input, TokenKind::Output, TokenKind::CacheRead, TokenKind::CacheWrite] {
        assert_eq!(TokenKind::from_name(kind.label()), Some(kind));
    }
    assert_eq!(TokenKind::from_name("tool"), None);
}
