//! Readings as intervals, usage as credits, and the rows a fit is made of.

use aub::calibration::fitter::{
    conclude_fit, evidence_set, in_time_order, lowest_credits,
    partition_usable_observations, prepare_fit, AdmissibleInterval, DiagnosticFinding,
    EntangledCoefficientPair, FitObservation, FitRejection, SlopeEstimate,
    INTERCEPT_POSSIBLE_CAUSES,
};
use aub::calibration::multivariate::{
    describe_fit, has_signal, joined_kinds, MultivariateDesign, MultivariateFigures,
    MultivariateObservationError, DEFAULT_MINIMUM_OBSERVATIONS,
};
use aub::calibration::settlement::SettlementPolicy;
use aub::calibration::usage::{
    aggregate_event_tokens, credit_series, cumulative_credits, is_countable,
    observations_with_cumulative_credits, EventValue, Spend, ValuedEvent,
};
use aub::domain::{
    Credits, KnownTokenVector, QuantizationSemantics, QuotaFractionPpm, ReportedResolution,
    TokenKind, UtcTimestamp,
};
use aub::error::Error;
use aub::ids::{
    BillingSemanticsId, EvidenceId, ExperimentId, MeterSemanticsId, PlanTier, ProviderKey,
    WindowSemanticKey,
};
use aub::records::{
    CalibrationExperiment, StoredFitObservation, StoredUsageEvent, ValidityInterval,
};

fn at(nanos: i64) -> UtcTimestamp {
    UtcTimestamp::from_unix_nanos(nanos)
}

fn reading(id: &str, nanos: i64, used: i64, credits: i64) -> FitObservation {
    FitObservation::new(
        EvidenceId::new(id),
        at(nanos),
        used,
        10_000,
        QuantizationSemantics::RoundedToNearest,
        Credits::from_micros(credits),
    )
}

fn ends(quantization: QuantizationSemantics) -> (i64, i64) {
    let interval = AdmissibleInterval::from_reading(410_000, 10_001, quantization);
    (interval.lower_ppm(), interval.upper_ppm())
}

#[test]
fn a_reading_admits_an_interval() {
    assert_eq!(ends(QuantizationSemantics::Exact), (410_000, 410_000));
    assert_eq!(ends(QuantizationSemantics::RoundedToNearest), (405_000, 415_001));
    assert_eq!(ends(QuantizationSemantics::RoundedDown), (410_000, 420_001));
    assert_eq!(ends(QuantizationSemantics::RoundedUp), (399_999, 410_000));
    assert_eq!(ends(QuantizationSemantics::Unknown), (399_999, 420_001));
    let observation = reading("r", 0, 410_000, 0);
    assert!(observation.interval_fits());
    assert_eq!(observation.twice_midpoint(), 820_000);
    let extreme = reading("r", 0, i64::MAX, 0);
    assert!(!extreme.interval_fits());
}

#[test]
fn usable_readings_advance_in_time_and_stop_at_a_reset() {
    let rows = vec![
        reading("c", 30, 130_000, 3),
        reading("a", 10, 100_000, 1),
        reading("b", 20, 110_000, 2),
        reading("b-again", 20, 111_000, 2),
        reading("reset", 40, 50_000, 4),
        reading("after", 50, 60_000, 5),
    ];
    assert_eq!(in_time_order(&rows), vec![1, 2, 3, 0, 4, 5]);
    let (usable, excluded) = partition_usable_observations(&rows);
    let ids: Vec<&str> = usable.iter().map(|o| o.evidence_id.as_str()).collect();
    assert_eq!(ids, vec!["a", "b", "c"]);
    let left: Vec<&str> = excluded.iter().map(|s| s.sample_ref.as_str()).collect();
    assert_eq!(left, vec!["b-again", "reset", "after"]);
    assert_eq!(excluded[1].reason, "excluded: quota reset crossing detected");
    assert_eq!(lowest_credits(&rows), 1);
    assert_eq!(evidence_set(&rows).len(), 6);
}

#[test]
fn the_order_of_readings_does_not_matter() {
    let rows = vec![
        reading("a", 10, 100_000, 1),
        reading("b", 20, 110_000, 2),
        reading("b-again", 20, 111_000, 2),
        reading("reset", 40, 50_000, 4),
        reading("after", 50, 60_000, 5),
    ];
    let expected = partition_usable_observations(&rows);
    for turn in 1..rows.len() {
        let mut turned = rows.clone();
        turned.rotate_left(turn);
        assert_eq!(partition_usable_observations(&turned), expected);
        turned.reverse();
        assert_eq!(partition_usable_observations(&turned), expected);
    }
    let (usable, excluded) = expected;
    for row in &rows {
        let named = excluded
            .iter()
            .filter(|sample| sample.sample_ref == row.evidence_id.as_str())
            .count();
        assert_eq!(usable.contains(row), named == 0);
        assert!(named <= 1);
    }
}

#[test]
fn a_fit_needs_readings_and_spend() {
    assert_eq!(
        prepare_fit(&vec![]).map(|_| ()),
        Err(FitRejection::InsufficientObservations { found: 0, required: 2 })
    );
    let repeated = vec![reading("a", 10, 100_000, 1), reading("b", 10, 100_000, 2)];
    assert_eq!(
        prepare_fit(&repeated).map(|_| ()),
        Err(FitRejection::InsufficientObservations { found: 1, required: 2 })
    );
    let flat = vec![reading("a", 10, 100_000, 1), reading("b", 20, 110_000, 1)];
    assert_eq!(prepare_fit(&flat).map(|_| ()), Err(FitRejection::ZeroCreditSpan));
    let good = vec![reading("a", 10, 100_000, 1), reading("b", 20, 110_000, 9)];
    let frame = prepare_fit(&good).unwrap();
    assert_eq!(frame.usable, good);
    assert_eq!(frame.least_credits, 1);
    assert_eq!(frame.resolution_ppm, 10_000);
}

fn experiment() -> CalibrationExperiment {
    let resolution =
        ReportedResolution::new(QuotaFractionPpm::new(10_000).unwrap()).unwrap();
    CalibrationExperiment {
        id: ExperimentId::new("exp-1"),
        provider: ProviderKey::new("anthropic"),
        plan_tier: PlanTier::new("pro"),
        window_semantic_key: WindowSemanticKey::new("five_hour"),
        meter_semantics_id: MeterSemanticsId::new("meter-v1"),
        billing_semantics_id: BillingSemanticsId::new("billing-v1"),
        settlement_policy: SettlementPolicy::conservative_default(resolution),
        validity: ValidityInterval::new(at(1), at(100)).unwrap(),
        knowledge_time: at(90),
    }
}

fn estimate(intercept_ppm: i64) -> SlopeEstimate {
    SlopeEstimate {
        micros_per_point: 500_000,
        uncertainty_low_micros: 510_000,
        uncertainty_high_micros: 490_000,
        fit_residual_micros: -3,
        intercept_ppm,
        huber_delta_ppm: "5000.0".to_string(),
    }
}

#[test]
fn a_fit_concludes_in_a_sound_candidate() {
    let rows = vec![reading("a", 10, 100_000, 1), reading("b", 20, 110_000, 9)];
    let frame = prepare_fit(&rows).unwrap();
    let result = conclude_fit(frame, &rows, &estimate(0), &experiment());
    let candidate = &result.candidate;
    assert!(candidate.id.as_str().starts_with("cand-exp-1-"));
    assert_eq!(candidate.id.as_str().len(), "cand-exp-1-".len() + 16);
    assert_eq!(candidate.fitted.micros_per_point(), 500_000);
    assert_eq!(candidate.equivalent_full_window_capacity.micros(), 500_000_000_000);
    assert_eq!(candidate.fit_residual.micros(), 0);
    assert_eq!(candidate.uncertainty.lower().micros_per_point(), 490_000);
    assert_eq!(candidate.uncertainty.upper().micros_per_point(), 510_000);
    assert_eq!(candidate.sample_count, 2);
    assert_eq!(candidate.validity, experiment().validity);
    assert_eq!(result.lag_handling, "settled-boundary-cancellation");
    assert_eq!(result.statistical_method, "theil-sen-huber-interval");
    assert_eq!(
        result.statistical_parameters,
        "huber_delta_ppm=5000.0;init=theil_sen;quantization=admissible_interval"
    );
    assert!(result.diagnostic_findings.is_empty());
    let tiny = SlopeEstimate { micros_per_point: -4, ..estimate(0) };
    let frame = prepare_fit(&rows).unwrap();
    let least = conclude_fit(frame, &rows, &tiny, &experiment());
    assert_eq!(least.candidate.fitted.micros_per_point(), 1);
    assert_eq!(least.candidate.equivalent_full_window_capacity.micros(), 0);
}

#[test]
fn a_large_intercept_is_diagnosed_with_its_causes() {
    let rows = vec![reading("a", 10, 100_000, 1), reading("b", 20, 110_000, 9)];
    for (intercept, found) in [(10_000, 0), (-10_000, 0), (10_001, 1), (-10_001, 1)] {
        let frame = prepare_fit(&rows).unwrap();
        let result = conclude_fit(frame, &rows, &estimate(intercept), &experiment());
        assert_eq!(result.diagnostic_findings.len(), found, "{intercept}");
    }
    let finding = DiagnosticFinding::LargeIntercept { intercept_ppm: -12_000, threshold_ppm: 10_000 };
    assert_eq!(finding.possible_causes(), INTERCEPT_POSSIBLE_CAUSES);
    assert_eq!(
        finding.message(),
        "large fitted intercept (-12000 ppm exceeds threshold 10000 ppm); possible causes: contamination, lag mismatch, incomplete cost model"
    );
}

#[test]
fn every_rejection_says_why() {
    let pair = EntangledCoefficientPair::new(
        TokenKind::Input,
        TokenKind::Output,
        "0.9990".to_string(),
    );
    assert_eq!((pair.first(), pair.second()), (TokenKind::Input, TokenKind::Output));
    for (rejection, message) in [
        (
            FitRejection::Underidentified { usable: 2 },
            "fit is underidentified with 2 usable observations",
        ),
        (
            FitRejection::NonPositiveSlope { slope_ppm_per_credit: "-1.5".to_string() },
            "non-positive slope fitted: -1.5 ppm/credit",
        ),
        (
            FitRejection::NonPositiveCoefficient {
                kind: TokenKind::Output,
                estimate_ppm_per_token: "-0.1".to_string(),
            },
            "non-positive coefficient fitted for output: -0.1 ppm/token; token usage cannot reduce the used fraction",
        ),
        (
            FitRejection::IllConditioned {
                condition_number: Some("45.00".to_string()),
                threshold: "30.00".to_string(),
                entangled: vec![pair],
            },
            "ill-conditioned fit (condition number 45.00 exceeds threshold 30.00); cannot separate input from output (correlation r=0.9990)",
        ),
        (
            FitRejection::IllConditioned {
                condition_number: None,
                threshold: "30.00".to_string(),
                entangled: vec![],
            },
            "ill-conditioned fit (condition number infinite exceeds threshold 30.00); no token-kind pair varied independently enough to separate",
        ),
        (FitRejection::ZeroCreditSpan, "zero credit movement across observations"),
        (FitRejection::BaselinePlateauNotSettled, "baseline meter plateau did not settle"),
        (FitRejection::TerminalPlateauNotSettled, "terminal meter plateau did not settle"),
        (
            FitRejection::MissingCostModelTerm { details: "x".to_string() },
            "missing cost model term: x",
        ),
        (
            FitRejection::ContaminatedSeries { details: "x".to_string() },
            "contaminated observation series: x",
        ),
    ] {
        assert_eq!(rejection.message(), message);
        let error = rejection.into_error();
        assert!(matches!(error, Error::InsufficientEvidence(_)), "{error:?}");
        assert!(error.message().contains(message));
    }
}

fn usage(event: &str, nanos: i64, class: &str, count: u64) -> StoredUsageEvent {
    StoredUsageEvent {
        canonical_event_id: event.to_string(),
        timestamp: at(nanos),
        model_id: None,
        token_class: class.to_string(),
        count,
        session: None,
    }
}

#[test]
fn rows_fold_into_one_vector_for_each_event() {
    let rows = vec![
        usage("b", 20, "input", 3),
        usage("a", 10, "output", 5),
        usage("b", 21, "input", 4),
        usage("b", 20, "cache_read", 1),
        usage("a", 10, "cache_write", 2),
    ];
    assert!(is_countable(&rows));
    let entries = aggregate_event_tokens(&rows).unwrap();
    assert_eq!(entries.len(), 2);
    assert_eq!(entries[0].event_id, "a");
    assert_eq!(entries[0].tokens, KnownTokenVector::new(0, 5, 0, 2));
    assert_eq!(entries[1].event_id, "b");
    assert_eq!(entries[1].at, at(20));
    assert_eq!(entries[1].tokens, KnownTokenVector::new(7, 0, 1, 0));
    assert_eq!(
        aggregate_event_tokens(&vec![usage("a", 1, "tool", 1)]),
        Err(Error::InsufficientEvidence(
            "unknown token class 'tool' in usage event".to_string()
        ))
    );
    let too_many = vec![usage("a", 1, "input", u64::MAX), usage("a", 1, "input", 1)];
    assert!(!is_countable(&too_many));
}

#[test]
fn credits_accumulate_in_time_order() {
    let events = vec![
        ValuedEvent { at: at(30), value: EventValue::Credits(Credits::from_micros(4)) },
        ValuedEvent { at: at(10), value: EventValue::Credits(Credits::from_micros(1)) },
        ValuedEvent { at: at(20), value: EventValue::Credits(Credits::from_micros(2)) },
    ];
    let series = credit_series(&events).unwrap();
    let order: Vec<i64> = series.iter().map(|spend| spend.at.unix_nanos()).collect();
    assert_eq!(order, vec![10, 20, 30]);
    for (nanos, total) in [(9, 0), (10, 1), (25, 3), (30, 7)] {
        assert_eq!(cumulative_credits(&series, at(nanos)), Some(Credits::from_micros(total)));
    }
    let readings = vec![StoredFitObservation {
        evidence_id: EvidenceId::new("r"),
        at: at(20),
        quota_used_ppm: 5,
        reported_resolution_ppm: 1,
        quantization: QuantizationSemantics::Exact,
    }];
    let paired = observations_with_cumulative_credits(&readings, &series).unwrap();
    assert_eq!(paired[0].cumulative_credits.micros(), 3);
    assert_eq!(paired[0].evidence_id.as_str(), "r");
    let huge = vec![
        Spend { at: at(1), credits: Credits::from_micros(i64::MAX) },
        Spend { at: at(1), credits: Credits::from_micros(1) },
    ];
    assert_eq!(cumulative_credits(&huge, at(1)), None);
}

#[test]
fn an_incomplete_cost_model_is_named() {
    let events = vec![ValuedEvent {
        at: at(1),
        value: EventValue::Missing(vec!["a".to_string(), "b".to_string()]),
    }];
    match credit_series(&events) {
        Err(Error::InsufficientEvidence(message)) => {
            assert_eq!(message, "incomplete cost model: missing facts [a, b]");
        }
        other => panic!("{other:?}"),
    }
}

#[test]
fn a_joint_fit_is_described() {
    let design = MultivariateDesign {
        kinds: vec![TokenKind::Input, TokenKind::Output],
        usable: vec![0, 1, 2, 4, 5],
        excluded_samples: vec![],
    };
    let figures = MultivariateFigures {
        residual_variance_ppm2: "1.250".to_string(),
        ridge_penalty: "0".to_string(),
        regularized: false,
        enforce_non_negativity: true,
    };
    let plain = describe_fit(&design, &figures);
    assert_eq!(plain.regularization, "none");
    assert_eq!(
        plain.non_negativity,
        "enforced: all 2 coefficients constrained to >= 0 ppm/token; unconstrained solution satisfied every bound"
    );
    assert_eq!(plain.statistical_method, "multivariate-ols-through-origin");
    assert_eq!(
        plain.statistical_parameters,
        "kinds=[input,output];n=5;p=2;dof=3;residual_variance_ppm2=1.250;ridge_penalty=0;intervals=normal-approx-1.96"
    );
    let ridged = describe_fit(
        &design,
        &MultivariateFigures {
            ridge_penalty: "0.5".to_string(),
            regularized: true,
            enforce_non_negativity: false,
            ..figures
        },
    );
    assert_eq!(ridged.regularization, "ridge penalty 0.5 added to gram diagonal");
    assert_eq!(
        ridged.non_negativity,
        "not enforced by configuration; all 2 fitted coefficients are positive"
    );
    assert_eq!(ridged.statistical_method, "multivariate-ridge-through-origin");
}

#[test]
fn signal_is_usage_in_a_fitted_kind() {
    let kinds = vec![TokenKind::Input, TokenKind::CacheRead];
    assert!(has_signal(&kinds, KnownTokenVector::new(0, 9, 1, 0)));
    assert!(!has_signal(&kinds, KnownTokenVector::new(0, 9, 0, 9)));
    assert_eq!(joined_kinds(&[TokenKind::Output, TokenKind::Input]), "output,input");
    assert_eq!(DEFAULT_MINIMUM_OBSERVATIONS, 8);
    let error = MultivariateObservationError::NonFiniteQuotaDelta {
        evidence: "ev-nan".to_string(),
        got: "NaN".to_string(),
    };
    assert_eq!(
        error.message(),
        "multivariate fit observation 'ev-nan' has a non-finite quota delta: NaN"
    );
}
