//! Settlement detection: the earliest stable plateau inside the window.

use aub::calibration::settlement::{
    detect_settlement, evaluate_experiment_settlement, IncompleteSettlementReason,
    SettlementCoverage, SettlementCriterion, SettlementMeterObservation,
    SettlementObservationSeries, SettlementPolicy, SettlementPolicyError, SettlementRole,
};
use aub::domain::{
    MonotonicDuration, QuotaFractionPpm, QuotaUsed, ReportedResolution, UtcTimestamp,
};

const FIVE_MINUTES: u64 = 300_000_000_000;
const TEN_MINUTES: u64 = 600_000_000_000;
const SIXTY_MINUTES: u64 = 3_600_000_000_000;

fn timestamp(minutes: u64) -> UtcTimestamp {
    UtcTimestamp::from_unix_nanos((minutes * 60_000_000_000) as i64)
}

fn quota(ppm: i32) -> QuotaUsed {
    QuotaUsed::new(QuotaFractionPpm::new(ppm).unwrap())
}

fn resolution(ppm: i32) -> ReportedResolution {
    ReportedResolution::new(QuotaFractionPpm::new(ppm).unwrap()).unwrap()
}

fn observation(minutes: u64, ppm: i32, resolution_ppm: i32) -> SettlementMeterObservation {
    SettlementMeterObservation::new(timestamp(minutes), quota(ppm), resolution(resolution_ppm))
}

fn default_policy() -> SettlementPolicy {
    SettlementPolicy::conservative_default(resolution(10_000))
}

fn criterion(
    required_observations: u32,
    minimum_span_nanos: u64,
    maximum_window_nanos: u64,
    resolution_ppm: i32,
) -> SettlementCriterion {
    SettlementCriterion::new(
        MonotonicDuration::from_nanos(FIVE_MINUTES),
        required_observations,
        MonotonicDuration::from_nanos(minimum_span_nanos),
        0,
        MonotonicDuration::from_nanos(maximum_window_nanos),
        resolution(resolution_ppm),
    )
    .unwrap()
}

#[test]
fn known_lag_series_settles_at_first_stable_window() {
    let series = SettlementObservationSeries::complete(
        timestamp(0),
        vec![
            observation(0, 100_000, 10_000),
            observation(5, 300_000, 10_000),
            observation(10, 450_000, 10_000),
            observation(15, 600_000, 10_000),
            observation(20, 600_000, 10_000),
            observation(25, 600_000, 10_000),
        ],
    );

    let result = detect_settlement(&series, &default_policy(), SettlementRole::Terminal);
    let boundary = result.boundary().expect("known lag should settle");
    assert_eq!(boundary.observed_at(), timestamp(25));
    assert_eq!(boundary.quota_used(), quota(600_000));
    assert_eq!(boundary.observation_index(), 5);
}

#[test]
fn never_settling_terminal_is_incomplete_and_publishes_no_fit() {
    let baseline = SettlementObservationSeries::complete(
        timestamp(0),
        vec![
            observation(0, 100_000, 10_000),
            observation(5, 100_000, 10_000),
            observation(10, 100_000, 10_000),
        ],
    );
    let terminal = SettlementObservationSeries::complete(
        timestamp(0),
        (0..=12)
            .map(|minute| observation(minute * 5, 100_000 + (minute as i32) * 20_000, 10_000))
            .collect(),
    );

    let settlement = evaluate_experiment_settlement(&baseline, &terminal, &default_policy());
    assert!(settlement.baseline.is_settled());
    assert_eq!(
        settlement.terminal.incomplete_reason(),
        Some(IncompleteSettlementReason::NoPlateauWithinWindow)
    );
    assert!(settlement.is_incomplete());
    assert!(settlement.publishable_fit().is_none());
}

#[test]
fn plateau_after_maximum_window_is_incomplete() {
    let series = SettlementObservationSeries::complete(
        timestamp(0),
        vec![
            observation(55, 600_000, 10_000),
            observation(60, 600_000, 10_000),
            observation(65, 600_000, 10_000),
        ],
    );

    let result = detect_settlement(&series, &default_policy(), SettlementRole::Terminal);
    assert_eq!(
        result.incomplete_reason(),
        Some(IncompleteSettlementReason::NoPlateauWithinWindow)
    );
}

#[test]
fn below_resolution_change_does_not_block_settlement() {
    let series = SettlementObservationSeries::complete(
        timestamp(0),
        vec![
            observation(0, 100_000, 10_000),
            observation(5, 104_999, 10_000),
            observation(10, 100_001, 10_000),
        ],
    );

    let result = detect_settlement(&series, &default_policy(), SettlementRole::Baseline);
    assert!(result.is_settled());
    assert_eq!(result.boundary().unwrap().observed_at(), timestamp(10));
}

#[test]
fn one_full_resolution_step_is_material() {
    let series = SettlementObservationSeries::complete(
        timestamp(0),
        vec![
            observation(0, 100_000, 10_000),
            observation(5, 110_000, 10_000),
            observation(10, 100_000, 10_000),
        ],
    );

    let result = detect_settlement(&series, &default_policy(), SettlementRole::Baseline);
    assert_eq!(
        result.incomplete_reason(),
        Some(IncompleteSettlementReason::NoPlateauWithinWindow)
    );
}

#[test]
fn fewer_observations_than_required_never_settle() {
    for observation_count in 0usize..3 {
        let observations = (0..observation_count)
            .map(|index| observation(index as u64 * 5, 100_000, 10_000))
            .collect();
        let series = SettlementObservationSeries::complete(timestamp(0), observations);
        let result = detect_settlement(&series, &default_policy(), SettlementRole::Terminal);
        assert!(!result.is_settled());
    }
}

#[test]
fn baseline_and_terminal_use_their_recorded_criteria() {
    let baseline_criterion = criterion(2, FIVE_MINUTES, TEN_MINUTES, 10_000);
    let terminal_criterion = criterion(3, TEN_MINUTES, SIXTY_MINUTES, 10_000);
    let policy = SettlementPolicy::new(
        "role-specific-v1",
        baseline_criterion,
        terminal_criterion,
        None,
    )
    .unwrap();
    let series = SettlementObservationSeries::complete(
        timestamp(0),
        vec![
            observation(0, 100_000, 10_000),
            observation(5, 100_000, 10_000),
            observation(10, 100_000, 10_000),
        ],
    );

    let settlement = evaluate_experiment_settlement(&series, &series, &policy);
    assert_eq!(
        settlement.baseline.boundary().unwrap().observed_at(),
        timestamp(5)
    );
    assert_eq!(
        settlement.terminal.boundary().unwrap().observed_at(),
        timestamp(10)
    );
}

#[test]
fn equal_role_criteria_require_an_explicit_sharing_reason() {
    let criterion = criterion(3, TEN_MINUTES, SIXTY_MINUTES, 10_000);
    assert_eq!(
        SettlementPolicy::new("missing-reason", criterion, criterion, None),
        Err(SettlementPolicyError::SharedCriteriaReasonRequired)
    );
    let policy = SettlementPolicy::new(
        "shared-v1",
        criterion,
        criterion,
        Some("the provider exposes one lag contract for both roles".to_string()),
    )
    .unwrap();
    assert!(policy.shared_criteria_reason().is_some());
}

#[test]
fn insufficient_meter_coverage_cannot_settle_stable_readings() {
    let baseline = SettlementObservationSeries::complete(
        timestamp(0),
        vec![
            observation(0, 100_000, 10_000),
            observation(5, 100_000, 10_000),
            observation(10, 100_000, 10_000),
        ],
    );
    let terminal = SettlementObservationSeries::new(
        timestamp(0),
        vec![
            observation(0, 100_000, 10_000),
            observation(5, 100_000, 10_000),
            observation(10, 100_000, 10_000),
        ],
        SettlementCoverage::insufficient(4, 3),
    );

    let settlement = evaluate_experiment_settlement(&baseline, &terminal, &default_policy());
    assert!(settlement.baseline.is_settled());
    assert_eq!(
        settlement.terminal.incomplete_reason(),
        Some(IncompleteSettlementReason::InsufficientMeterCoverage)
    );
    assert!(settlement.publishable_fit().is_none());
}

#[test]
fn detection_is_replayable_without_mutating_the_series() {
    let series = SettlementObservationSeries::new(
        timestamp(0),
        vec![
            observation(10, 100_000, 10_000),
            observation(0, 100_000, 10_000),
            observation(5, 100_000, 10_000),
        ],
        SettlementCoverage::Complete,
    );
    let original = series.clone();
    let first = detect_settlement(&series, &default_policy(), SettlementRole::Terminal);
    let second = detect_settlement(&series, &default_policy(), SettlementRole::Terminal);
    assert_eq!(first, second);
    assert_eq!(first.boundary().unwrap().observed_at(), timestamp(10));
    assert_eq!(series, original);
}
