//! Contamination signals over meter series, credits and session markers.

use aub::calibration::contamination::{
    evaluate_contamination, require_uncontaminated_for_activation, ContaminationInputs,
    ContaminationMagnitude, ContaminationMarkerPoint, ContaminationMeterPoint,
    ContaminationSignal, ContaminationThresholds, ContaminationThresholdsError,
    DEFAULT_POST_SETTLEMENT_GRACE_NANOS,
};
use aub::domain::{Credits, MonotonicDuration, QuotaFractionPpm, QuotaUsed, UtcTimestamp};

fn timestamp(nanos: i64) -> UtcTimestamp {
    UtcTimestamp::from_unix_nanos(nanos)
}

fn quota(ppm: i32) -> QuotaUsed {
    QuotaUsed::new(QuotaFractionPpm::new(ppm).unwrap())
}

fn point(at_nanos: i64, ppm: i32) -> ContaminationMeterPoint {
    ContaminationMeterPoint::new(timestamp(at_nanos), quota(ppm))
}

fn marker(
    source: &str,
    native: &str,
    account: &str,
    at_nanos: i64,
) -> ContaminationMarkerPoint {
    ContaminationMarkerPoint::new(source, native, account, timestamp(at_nanos))
}

fn clean_inputs<'a>(
    pre_burn_series: &'a [ContaminationMeterPoint],
    post_series: &'a [ContaminationMeterPoint],
    markers: &'a [ContaminationMarkerPoint],
) -> ContaminationInputs<'a> {
    ContaminationInputs {
        experiment_account: "work-a",
        baseline_plateau_started_at: timestamp(0),
        started_at: timestamp(1_000),
        ended_at: Some(timestamp(2_000)),
        evaluated_at: timestamp(3_000),
        pre_burn_series,
        post_series,
        controlled_meter_start: quota(100_000),
        controlled_meter_end: quota(100_000),
        local_credits_delta: Credits::from_micros(5_000_000),
        markers,
    }
}

#[test]
fn all_four_signals_are_computed_for_every_experiment() {
    let pre = vec![point(0, 100_000), point(500, 150_000)];
    let post = vec![
        point(2_000 + 3_600_000_000_000 + 1, 100_000),
        point(2_000 + 3_600_000_000_000 + 2, 150_000),
    ];
    let markers = vec![marker("agent-a", "sess-other", "work-a", 1_500)];
    let inputs = ContaminationInputs {
        controlled_meter_start: quota(100_000),
        controlled_meter_end: quota(200_000),
        local_credits_delta: Credits::from_micros(0),
        ..clean_inputs(&pre, &post, &markers)
    };
    let verdict =
        evaluate_contamination(&inputs, &ContaminationThresholds::conservative_default());
    for signal in ContaminationSignal::all() {
        assert_eq!(
            verdict.findings_for(signal).len(),
            1,
            "signal {signal} must fire exactly once on the fully contaminated fixture",
            signal = signal.label()
        );
    }
    assert!(verdict.is_contaminated());
}

#[test]
fn pre_burn_idle_movement_fires_and_reports_its_magnitude() {
    let pre = vec![point(0, 100_000), point(500, 130_000)];
    let post = vec![];
    let markers = vec![];
    let inputs = clean_inputs(&pre, &post, &markers);
    let verdict =
        evaluate_contamination(&inputs, &ContaminationThresholds::conservative_default());
    let findings = verdict.findings_for(ContaminationSignal::PreBurnIdleMovement);
    assert_eq!(findings.len(), 1);
    assert_eq!(
        findings[0].magnitude,
        ContaminationMagnitude::PreBurnIdleMovement {
            movement_ppm: 30_000
        }
    );
    assert!(findings[0].summary().contains("pre_burn_idle_movement"));
    assert!(findings[0].summary().contains("30000"));
}

/// The planted negative for the pre-burn check: the same movement with a
/// tighter recorded tolerance stays quiet, so the test proves the
/// threshold is read rather than assumed.
#[test]
fn pre_burn_idle_movement_below_tolerance_stays_clean() {
    let pre = vec![point(0, 100_000), point(500, 105_000)];
    let post = vec![];
    let markers = vec![];
    let inputs = clean_inputs(&pre, &post, &markers);
    let verdict =
        evaluate_contamination(&inputs, &ContaminationThresholds::conservative_default());
    assert!(
        verdict
            .findings_for(ContaminationSignal::PreBurnIdleMovement)
            .is_empty()
    );
    assert!(!verdict.is_contaminated());
}

#[test]
fn extended_settlement_drift_fires_and_reports_its_magnitude() {
    let grace = DEFAULT_POST_SETTLEMENT_GRACE_NANOS as i64;
    let post = vec![
        point(2_000 + grace + 1, 100_000),
        point(2_000 + grace + 2, 140_000),
    ];
    let pre = vec![];
    let markers = vec![];
    let inputs = clean_inputs(&pre, &post, &markers);
    let verdict =
        evaluate_contamination(&inputs, &ContaminationThresholds::conservative_default());
    let findings = verdict.findings_for(ContaminationSignal::ExtendedSettlementDrift);
    assert_eq!(findings.len(), 1);
    assert_eq!(
        findings[0].magnitude,
        ContaminationMagnitude::ExtendedSettlementDrift {
            movement_ppm: 40_000
        }
    );
}

/// Movement inside the grace period is ordinary settlement lag, not drift.
#[test]
fn movement_inside_the_settlement_grace_is_not_drift() {
    let grace = DEFAULT_POST_SETTLEMENT_GRACE_NANOS as i64;
    let post = vec![point(2_000 + 1, 100_000), point(2_000 + grace - 1, 500_000)];
    let pre = vec![];
    let markers = vec![];
    let inputs = clean_inputs(&pre, &post, &markers);
    let verdict =
        evaluate_contamination(&inputs, &ContaminationThresholds::conservative_default());
    assert!(
        verdict
            .findings_for(ContaminationSignal::ExtendedSettlementDrift)
            .is_empty()
    );
}

#[test]
fn flat_credits_with_meter_movement_fires_and_reports_both_halves() {
    let pre = vec![];
    let post = vec![];
    let markers = vec![];
    let inputs = ContaminationInputs {
        controlled_meter_start: quota(100_000),
        controlled_meter_end: quota(160_000),
        local_credits_delta: Credits::from_micros(0),
        ..clean_inputs(&pre, &post, &markers)
    };
    let verdict =
        evaluate_contamination(&inputs, &ContaminationThresholds::conservative_default());
    let findings = verdict.findings_for(ContaminationSignal::FlatCreditsWithMeterMovement);
    assert_eq!(findings.len(), 1);
    assert_eq!(
        findings[0].magnitude,
        ContaminationMagnitude::FlatCreditsWithMeterMovement {
            meter_movement_ppm: 60_000,
            local_credits_micros: 0,
        }
    );
    assert!(findings[0].summary().contains("60000"));
}

/// The planted negative for the flat-credits check: substantial local
/// credits explain the meter movement, so no finding fires.
#[test]
fn explained_meter_movement_with_real_local_credits_stays_clean() {
    let pre = vec![];
    let post = vec![];
    let markers = vec![];
    let inputs = ContaminationInputs {
        controlled_meter_start: quota(100_000),
        controlled_meter_end: quota(160_000),
        local_credits_delta: Credits::from_micros(9_000_000),
        ..clean_inputs(&pre, &post, &markers)
    };
    let verdict =
        evaluate_contamination(&inputs, &ContaminationThresholds::conservative_default());
    assert!(
        verdict
            .findings_for(ContaminationSignal::FlatCreditsWithMeterMovement)
            .is_empty()
    );
    assert!(!verdict.is_contaminated());
}

#[test]
fn overlapping_session_reports_which_sessions_overlapped() {
    let pre = vec![];
    let post = vec![];
    let markers = vec![
        marker("agent-a", "sess-other", "work-a", 1_500),
        marker("codex", "sess-elsewhere", "work-a", 1_800),
        marker("agent-a", "sess-mine-elsewhere", "personal", 1_500),
        marker("agent-a", "sess-before", "work-a", 500),
    ];
    let inputs = clean_inputs(&pre, &post, &markers);
    let verdict =
        evaluate_contamination(&inputs, &ContaminationThresholds::conservative_default());
    let findings = verdict.findings_for(ContaminationSignal::OverlappingSession);
    assert_eq!(findings.len(), 1);
    assert_eq!(
        findings[0].magnitude,
        ContaminationMagnitude::OverlappingSession {
            sessions: vec![
                "agent-a/sess-other".to_string(),
                "codex/sess-elsewhere".to_string(),
            ],
        }
    );
}

/// The planted negative for the overlap check: markers for other accounts
/// and markers outside the window are not evidence against this experiment.
#[test]
fn markers_for_other_accounts_or_outside_the_window_do_not_overlap() {
    let pre = vec![];
    let post = vec![];
    let markers = vec![
        marker("agent-a", "sess-other-account", "personal", 1_500),
        marker("agent-a", "sess-after", "work-a", 2_500),
    ];
    let inputs = clean_inputs(&pre, &post, &markers);
    let verdict =
        evaluate_contamination(&inputs, &ContaminationThresholds::conservative_default());
    assert!(
        verdict
            .findings_for(ContaminationSignal::OverlappingSession)
            .is_empty()
    );
}

#[test]
fn the_pre_burn_check_uses_only_the_asserted_plateau_period() {
    // Movement before the asserted plateau start is some earlier window's
    // business, even when it is large.
    let pre = vec![
        point(-500, 100_000),
        point(-100, 400_000),
        point(0, 400_000),
        point(500, 400_000),
    ];
    let post = vec![];
    let markers = vec![];
    let mut inputs = clean_inputs(&pre, &post, &markers);
    inputs.baseline_plateau_started_at = timestamp(0);
    inputs.controlled_meter_start = quota(400_000);
    inputs.controlled_meter_end = quota(400_000);
    let verdict =
        evaluate_contamination(&inputs, &ContaminationThresholds::conservative_default());
    assert!(
        verdict
            .findings_for(ContaminationSignal::PreBurnIdleMovement)
            .is_empty(),
        "movement before the asserted plateau start must not fire the pre-burn signal"
    );
}

#[test]
fn each_threshold_is_read_from_configuration_not_from_a_constant() {
    // The pre-burn series is stable, so the only signal that can fire is
    // flat-credits: the strict-versus-permissive difference below is then
    // attributable to the flat-credits meter threshold alone.
    let pre = vec![point(0, 100_000), point(500, 100_000)];
    let empty_pre: Vec<ContaminationMeterPoint> = vec![];
    let markers: Vec<ContaminationMarkerPoint> = vec![];
    let permissive = ContaminationThresholds::new(
        "permissive-v1",
        50_000,
        50_000,
        MonotonicDuration::from_nanos(DEFAULT_POST_SETTLEMENT_GRACE_NANOS),
        100_000,
        Credits::from_micros(0),
    )
    .unwrap();
    let inputs = ContaminationInputs {
        controlled_meter_start: quota(100_000),
        controlled_meter_end: quota(130_000),
        local_credits_delta: Credits::from_micros(0),
        ..clean_inputs(&pre, &empty_pre, &markers)
    };
    let strict_verdict =
        evaluate_contamination(&inputs, &ContaminationThresholds::conservative_default());
    assert!(strict_verdict.is_contaminated());
    assert_eq!(
        strict_verdict
            .findings_for(ContaminationSignal::FlatCreditsWithMeterMovement)
            .len(),
        1,
        "with a stable pre-burn series only flat-credits may fire under the strict thresholds"
    );
    let permissive_verdict = evaluate_contamination(&inputs, &permissive);
    assert!(
        !permissive_verdict.is_contaminated(),
        "the same evidence under permissive recorded thresholds must read clean"
    );
    assert_eq!(permissive.version(), "permissive-v1");
}

#[test]
fn a_contaminated_candidate_is_refused_for_activation_with_signal_named() {
    let pre = vec![point(0, 100_000), point(500, 150_000)];
    let post = vec![];
    let markers = vec![];
    let inputs = clean_inputs(&pre, &post, &markers);
    let verdict =
        evaluate_contamination(&inputs, &ContaminationThresholds::conservative_default());
    assert!(verdict.is_contaminated());
    let refusal = require_uncontaminated_for_activation(&verdict).unwrap_err();
    assert_eq!(refusal.signal, ContaminationSignal::PreBurnIdleMovement);
    assert!(refusal.message().contains("pre_burn_idle_movement"));
    assert!(refusal.message().contains("50000"));
}

#[test]
fn a_clean_verdict_passes_the_activation_gate() {
    let pre = vec![point(0, 100_000), point(500, 100_000)];
    let post = vec![];
    let markers = vec![];
    let inputs = clean_inputs(&pre, &post, &markers);
    let verdict =
        evaluate_contamination(&inputs, &ContaminationThresholds::conservative_default());
    assert!(!verdict.is_contaminated());
    assert!(require_uncontaminated_for_activation(&verdict).is_ok());
    assert!(verdict.contamination_mark().is_none());
}

#[test]
fn the_contamination_mark_names_every_fired_signal_with_magnitude() {
    let pre = vec![point(0, 100_000), point(500, 150_000)];
    let post = vec![];
    let markers = vec![marker("agent-a", "sess-other", "work-a", 1_500)];
    let inputs = ContaminationInputs {
        controlled_meter_start: quota(100_000),
        controlled_meter_end: quota(200_000),
        local_credits_delta: Credits::from_micros(0),
        ..clean_inputs(&pre, &post, &markers)
    };
    let verdict =
        evaluate_contamination(&inputs, &ContaminationThresholds::conservative_default());
    let mark = verdict.contamination_mark().expect("must be marked");
    assert!(mark.starts_with("contaminated("));
    assert!(mark.contains("pre_burn_idle_movement"));
    assert!(mark.contains("flat_credits_with_meter_movement"));
    assert!(mark.contains("overlapping_session"));
    assert!(mark.contains("agent-a/sess-other"));
}

#[test]
fn empty_evidence_fires_no_signal() {
    let pre = vec![];
    let post = vec![];
    let markers = vec![];
    let inputs = clean_inputs(&pre, &post, &markers);
    let verdict =
        evaluate_contamination(&inputs, &ContaminationThresholds::conservative_default());
    assert!(!verdict.is_contaminated());
}

#[test]
fn threshold_construction_refuses_an_empty_version_and_a_zero_grace() {
    assert_eq!(
        ContaminationThresholds::new(
            "  ",
            1,
            1,
            MonotonicDuration::from_nanos(1),
            1,
            Credits::from_micros(0),
        ),
        Err(ContaminationThresholdsError::EmptyVersion)
    );
    assert_eq!(
        ContaminationThresholds::new(
            "v1",
            1,
            1,
            MonotonicDuration::from_nanos(0),
            1,
            Credits::from_micros(0),
        ),
        Err(ContaminationThresholdsError::PostSettlementGraceIsZero)
    );
}
