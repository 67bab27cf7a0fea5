//! Passive evidence: what excludes an interval, and what the report counts.

use aub::calibration::fitter::{conclude_fit, prepare_fit, SlopeEstimate};
use aub::calibration::passive::{
    evaluate_interval, CandidateInterval, PassiveEligibilityCondition, PassiveExclusionReason,
    WindowAnomalyKind,
};
use aub::calibration::passive_report::{
    evaluate_and_report_passive_intervals, passive_fit_inputs,
};
use aub::domain::UtcTimestamp;
use aub::ids::PlanTier;

// --- Unit tests: each of the ten conditions failing in isolation ---

#[test]
fn condition_1_inferred_account_attribution_fails_in_isolation() {
    let mut interval = CandidateInterval::eligible_fixture("cond-1");
    interval.has_inferred_account_attribution = true;

    let reasons = evaluate_interval(&interval);
    assert_eq!(reasons.len(), 1);
    assert_eq!(
        reasons[0],
        PassiveExclusionReason::ConditionFailed(
            PassiveEligibilityCondition::HighConfidenceAccountAttribution,
            "inferred account attribution makes interval ineligible".to_string(),
        )
    );
}

#[test]
fn condition_2_missing_meter_boundary_fails_in_isolation() {
    let mut interval = CandidateInterval::eligible_fixture("cond-2");
    interval.end_observation = None;

    let reasons = evaluate_interval(&interval);
    assert_eq!(reasons.len(), 1);
    assert_eq!(
        reasons[0],
        PassiveExclusionReason::ConditionFailed(
            PassiveEligibilityCondition::MeterObservationsOnBothSides,
            "missing meter observation at interval boundary".to_string(),
        )
    );
}

#[test]
fn condition_3_reset_inside_interval_fails_in_isolation() {
    let mut interval = CandidateInterval::eligible_fixture("cond-3");
    interval.reset_inside = true;

    let reasons = evaluate_interval(&interval);
    assert_eq!(reasons.len(), 1);
    assert_eq!(
        reasons[0],
        PassiveExclusionReason::ConditionFailed(
            PassiveEligibilityCondition::NoResetInside,
            "quota reset crossing detected inside interval".to_string(),
        )
    );
}

#[test]
fn condition_4_changed_plan_tier_fails_in_isolation() {
    let mut interval = CandidateInterval::eligible_fixture("cond-4");
    interval.plan_tier_end = PlanTier::new("max-tier");

    let reasons = evaluate_interval(&interval);
    assert_eq!(reasons.len(), 1);
    assert_eq!(
        reasons[0],
        PassiveExclusionReason::ConditionFailed(
            PassiveEligibilityCondition::UnchangedPlanTier,
            "plan tier changed across interval: 'pro-5h' -> 'max-tier'".to_string(),
        )
    );
}

#[test]
fn condition_5_estimated_token_usage_fails_in_isolation() {
    let mut interval = CandidateInterval::eligible_fixture("cond-5");
    interval.has_estimated_tokens = true;

    let reasons = evaluate_interval(&interval);
    assert_eq!(reasons.len(), 1);
    assert_eq!(
        reasons[0],
        PassiveExclusionReason::ConditionFailed(
            PassiveEligibilityCondition::ExactContributingUsage,
            "estimated token usage makes interval ineligible".to_string(),
        )
    );
}

#[test]
fn condition_6_unknown_token_components_fails_in_isolation() {
    let mut interval = CandidateInterval::eligible_fixture("cond-6");
    interval.has_unknown_token_components = true;

    let reasons = evaluate_interval(&interval);
    assert_eq!(reasons.len(), 1);
    assert_eq!(
        reasons[0],
        PassiveExclusionReason::ConditionFailed(
            PassiveEligibilityCondition::NoUnknownTokenComponents,
            "unknown token components present in usage".to_string(),
        )
    );
}

#[test]
fn condition_7_insufficient_meter_coverage_fails_in_isolation() {
    let mut interval = CandidateInterval::eligible_fixture("cond-7");
    interval.meter_coverage_complete = false;

    let reasons = evaluate_interval(&interval);
    assert_eq!(reasons.len(), 1);
    assert_eq!(
        reasons[0],
        PassiveExclusionReason::ConditionFailed(
            PassiveEligibilityCondition::SufficientMeterCoverage,
            "insufficient meter coverage around interval".to_string(),
        )
    );
}

#[test]
fn condition_8_overlapping_session_fails_in_isolation() {
    let mut interval = CandidateInterval::eligible_fixture("cond-8");
    interval.has_overlapping_session_or_consumer = true;

    let reasons = evaluate_interval(&interval);
    assert_eq!(reasons.len(), 1);
    assert_eq!(
        reasons[0],
        PassiveExclusionReason::ConditionFailed(
            PassiveEligibilityCondition::NoSecondLocalSessionOrConsumer,
            "overlapping local session or account consumer detected".to_string(),
        )
    );
}

#[test]
fn condition_9_exclusivity_policy_forbids_passive_fails_in_isolation() {
    let mut interval = CandidateInterval::eligible_fixture("cond-9");
    interval.exclusivity_permits_passive = false;

    let reasons = evaluate_interval(&interval);
    assert_eq!(reasons.len(), 1);
    assert_eq!(
        reasons[0],
        PassiveExclusionReason::ConditionFailed(
            PassiveEligibilityCondition::ExclusivityPolicyPermitsPassive,
            "account 'work-primary' exclusivity policy forbids passive fitting".to_string(),
        )
    );
}

#[test]
fn condition_10_unsettled_server_boundary_fails_in_isolation() {
    let mut interval = CandidateInterval::eligible_fixture("cond-10");
    interval.end_settled = false;

    let reasons = evaluate_interval(&interval);
    assert_eq!(reasons.len(), 1);
    assert_eq!(
        reasons[0],
        PassiveExclusionReason::ConditionFailed(
            PassiveEligibilityCondition::ServerSideSettlementSatisfied,
            "interval boundaries not bounded by sufficiently settled meter regions".to_string(),
        )
    );
}

#[test]
fn passive_evidence_prefers_settled_meter_regions_over_adjacent_samples() {
    let settled_interval = CandidateInterval::eligible_fixture("settled");
    assert!(settled_interval.start_settled && settled_interval.end_settled);
    assert!(evaluate_interval(&settled_interval).is_empty());

    let mut naive_interval = CandidateInterval::eligible_fixture("naive");
    naive_interval.start_settled = false;
    naive_interval.end_settled = false;
    let naive_reasons = evaluate_interval(&naive_interval);
    assert_eq!(naive_reasons.len(), 1);
    assert_eq!(
        naive_reasons[0],
        PassiveExclusionReason::ConditionFailed(
            PassiveEligibilityCondition::ServerSideSettlementSatisfied,
            "interval boundaries not bounded by sufficiently settled meter regions".to_string(),
        )
    );
}

// --- Invariant 14 enforcement test ---

#[test]
fn passive_calibration_produces_candidate_and_never_activates() {
    let interval = CandidateInterval::eligible_fixture("cand-no-act");
    let fit = passive_fit_inputs(
        &vec![interval.clone()],
        UtcTimestamp::from_unix_nanos(10_000_000_000),
    )
    .unwrap()
    .expect("the interval contributes observations");
    let frame = prepare_fit(&fit.observations).unwrap();
    let estimate = SlopeEstimate {
        micros_per_point: 1_000_000,
        uncertainty_low_micros: 1_000_000,
        uncertainty_high_micros: 1_000_000,
        fit_residual_micros: 0,
        intercept_ppm: 0,
        huber_delta_ppm: "10000".to_string(),
    };
    let fitted = conclude_fit(frame, &fit.observations, &estimate, &fit.experiment);
    let report = evaluate_and_report_passive_intervals(&vec![interval], Some(fitted.candidate));

    assert_eq!(report.intervals_considered, 1);
    assert_eq!(report.eligible_intervals, 1);
    assert_eq!(report.excluded_intervals, 0);
    assert!(report.candidate.is_some());

    // Produces a candidate by default and never an activation (Invariant 14)
    let candidate = report.candidate.unwrap();
    assert!(candidate.id.as_str().starts_with("cand-"));
    assert_eq!(candidate.plan_tier.as_str(), "pro-5h");
}

// --- Anomaly annotations and mismatch tests ---

#[test]
fn meter_window_anomaly_annotations_in_isolation_and_adjacent_clean_stay_eligible() {
    let clean_before = CandidateInterval::eligible_fixture("clean-1");
    let mut anomaly_1 = CandidateInterval::eligible_fixture("anomaly-1");
    anomaly_1
        .anomaly_exclusions
        .push(WindowAnomalyKind::PercentageDecreaseWithoutReset);

    let clean_mid = CandidateInterval::eligible_fixture("clean-2");
    let mut anomaly_2 = CandidateInterval::eligible_fixture("anomaly-2");
    anomaly_2
        .anomaly_exclusions
        .push(WindowAnomalyKind::UnexpectedResetTimestampChange);

    let clean_after = CandidateInterval::eligible_fixture("clean-3");

    let intervals = vec![clean_before, anomaly_1, clean_mid, anomaly_2, clean_after];
    let report = evaluate_and_report_passive_intervals(&intervals, None);

    assert_eq!(report.intervals_considered, 5);
    assert_eq!(report.eligible_intervals, 3);
    assert_eq!(report.excluded_intervals, 2);
    assert_eq!(
        report.failing_count("meter_window_anomaly"),
        Some(2)
    );
    assert_eq!(report.candidate_excluded_samples.len(), 2);
}

#[test]
fn external_validation_mismatch_alone_excludes_interval() {
    let mut interval = CandidateInterval::eligible_fixture("mismatch-1");
    interval.has_external_validation_mismatch = true;

    let reasons = evaluate_interval(&interval);
    assert_eq!(reasons.len(), 1);
    assert_eq!(
        reasons[0],
        PassiveExclusionReason::ExternalValidationMismatch {
            detail: "interval carries persisted external-validation mismatch annotation".to_string(),
        }
    );
}

// --- Property test: Monotonicity of relaxing and tightening conditions ---

#[test]
fn property_monotonicity_of_relaxing_and_tightening_conditions() {
    // Generate a corpus of intervals with varied eligibility flags
    let base_intervals: Vec<CandidateInterval> = (0..50)
        .map(|i| {
            let mut interval = CandidateInterval::eligible_fixture(&format!("prop-{i}"));
            if i % 2 == 1 {
                interval.has_inferred_account_attribution = true;
            }
            if i % 3 == 1 {
                interval.has_estimated_tokens = true;
            }
            if i % 5 == 1 {
                interval.reset_inside = true;
            }
            if i % 7 == 1 {
                interval.start_settled = false;
            }
            if i % 11 == 1 {
                interval.exclusivity_permits_passive = false;
            }
            interval
        })
        .collect();

    let count_eligible = |items: &[CandidateInterval]| -> usize {
        items
            .iter()
            .filter(|it| evaluate_interval(it).is_empty())
            .count()
    };

    let baseline_eligible = count_eligible(&base_intervals);

    // Relax condition: turn off inferred attribution across all intervals
    let mut relaxed = base_intervals.clone();
    for it in &mut relaxed {
        it.has_inferred_account_attribution = false;
    }
    let relaxed_eligible = count_eligible(&relaxed);
    assert!(
        relaxed_eligible >= baseline_eligible,
        "relaxing condition must enlarge or preserve eligible set: {relaxed_eligible} >= {baseline_eligible}"
    );

    // Tighten condition: force reset_inside across all intervals
    let mut tightened = base_intervals.clone();
    for it in &mut tightened {
        it.reset_inside = true;
    }
    let tightened_eligible = count_eligible(&tightened);
    assert!(
        tightened_eligible <= baseline_eligible,
        "tightening condition must reduce or preserve eligible set: {tightened_eligible} <= {baseline_eligible}"
    );
}
