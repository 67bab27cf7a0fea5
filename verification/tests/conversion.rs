//! Credits turned into window movement under one calibration.

use aub::calibration::conversion::{convert, WindowConversionContext, UNKNOWN_ACCOUNT_LABEL};
use aub::calibration::health::CalibrationHealth;
use aub::domain::{Credits, CreditsPerPercentagePoint, UtcTimestamp};
use aub::evidence::{
    CoverageCompleteness, Derivation, EvidenceQuality, Provenance, Qualified,
    WindowEquivalentDerivation,
};
use aub::ids::{
    BillingSemanticsId, CostModelId, MeterSemanticsId, PlanTier, ProviderKey,
    WindowCalibrationId, WindowSemanticKey,
};
use aub::records::{
    CoefficientUncertainty, EvidenceDigest, EvidenceFingerprint, ValidityInterval,
    WindowCalibration,
};
use aub::sets::TextSet;

fn texts(items: &[&str]) -> TextSet {
    let mut set = TextSet::new();
    for item in items {
        set.insert(item);
    }
    set
}

fn calibration_for(id: &str, plan_tier: &str, micros_per_point: i64) -> WindowCalibration {
    let coefficient = CreditsPerPercentagePoint::from_micros_per_point(micros_per_point);
    let evidence = texts(&["evidence-1"]);
    let held_out = texts(&["evidence-2"]);
    WindowCalibration {
        id: WindowCalibrationId::new(id),
        provider: ProviderKey::new("anthropic"),
        plan_tier: PlanTier::new(plan_tier),
        window_semantic_key: WindowSemanticKey::new("five_hour"),
        meter_semantics_id: MeterSemanticsId::new("meter-v1"),
        billing_semantics_id: BillingSemanticsId::new("billing-v1"),
        cost_model_id: CostModelId::new("cost-v1"),
        fitted: coefficient,
        equivalent_full_window_capacity: Credits::from_micros(micros_per_point * 100),
        fit_residual: Credits::from_micros(0),
        uncertainty: CoefficientUncertainty::new(coefficient, coefficient).unwrap(),
        lag_estimate: None,
        lag_handling: "none".to_string(),
        sample_count: 1,
        fit_timestamp: UtcTimestamp::from_unix_nanos(1),
        inputs: EvidenceDigest::from_inputs(&evidence),
        fitting_evidence: EvidenceFingerprint::from_inputs(&evidence),
        validation_evidence: EvidenceFingerprint::from_inputs(&held_out),
        validation_method: "none".to_string(),
        validation_version: "v1".to_string(),
        out_of_sample_residual: None,
        statistical_method: "none".to_string(),
        statistical_parameters: "{}".to_string(),
        condition_number: None,
        observation_coverage_requirement: "none".to_string(),
        settling_policy: "none".to_string(),
        excluded_samples: vec![],
        activation_policy_version: "v1".to_string(),
        aub_version: "0.1.0".to_string(),
        source_revision: "none".to_string(),
        validity: ValidityInterval::new(
            UtcTimestamp::from_unix_nanos(0),
            UtcTimestamp::from_unix_nanos(i64::MAX),
        )
        .unwrap(),
        knowledge_time: UtcTimestamp::from_unix_nanos(1),
    }
}

fn calibration() -> WindowCalibration {
    calibration_for("calibration-v1", "pro", 100_000)
}

fn context() -> WindowConversionContext {
    WindowConversionContext::new(
        Some("work".to_string()),
        ProviderKey::new("anthropic"),
        PlanTier::new("pro"),
        WindowSemanticKey::new("five_hour"),
        MeterSemanticsId::new("meter-v1"),
        BillingSemanticsId::new("billing-v1"),
        Some(CostModelId::new("cost-v1")),
    )
}

fn credits(micros: i64) -> Derivation {
    Derivation::Available(Qualified::new(
        Credits::from_micros(micros),
        CoverageCompleteness::Complete,
        EvidenceQuality::Measured,
        Provenance::new(texts(&["cost-model:cost-v1"])),
    ))
}

fn missing(result: &WindowEquivalentDerivation) -> Vec<String> {
    result.missing().unwrap().items().to_vec()
}

#[test]
fn converts_qualified_credits_to_a_bounded_percentage_point_interval() {
    let result = convert(
        &credits(10_000_000),
        &calibration(),
        &context(),
        CalibrationHealth::Current,
    );
    let WindowEquivalentDerivation::Available(value) = result else {
        panic!("matching calibration should convert")
    };
    assert_eq!(value.interval.lower().get(), 100);
    assert_eq!(value.interval.upper().get(), 100);
    assert_eq!(
        value.calibration_id,
        WindowCalibrationId::new("calibration-v1")
    );
    assert_eq!(value.coverage, CoverageCompleteness::Complete);
    assert!(matches!(value.quality, EvidenceQuality::Estimated { .. }));
    assert!(
        value
            .provenance
            .sources()
            .contains("window-calibration:calibration-v1")
    );
}

#[test]
fn every_applicability_dimension_is_checked_independently() {
    let cases = [
        (
            "account attribution",
            WindowConversionContext {
                account: None,
                ..context()
            },
        ),
        (
            "account attribution",
            WindowConversionContext {
                account: Some(UNKNOWN_ACCOUNT_LABEL.to_string()),
                ..context()
            },
        ),
        (
            "provider matches calibration",
            WindowConversionContext {
                provider: ProviderKey::new("openai"),
                ..context()
            },
        ),
        (
            "plan tier matches calibration",
            WindowConversionContext {
                plan_tier: PlanTier::new("max"),
                ..context()
            },
        ),
        (
            "window semantic key matches calibration",
            WindowConversionContext {
                window_semantic_key: WindowSemanticKey::new("seven_day"),
                ..context()
            },
        ),
        (
            "meter semantics match calibration",
            WindowConversionContext {
                meter_semantics_id: MeterSemanticsId::new("meter-v2"),
                ..context()
            },
        ),
        (
            "billing semantics match calibration",
            WindowConversionContext {
                billing_semantics_id: BillingSemanticsId::new("billing-v2"),
                ..context()
            },
        ),
    ];
    for (expected, mismatched) in cases {
        let result = convert(
            &credits(10_000_000),
            &calibration(),
            &mismatched,
            CalibrationHealth::Current,
        );
        assert!(
            missing(&result).iter().any(|fact| fact == expected),
            "{expected}"
        );
    }
}

#[test]
fn non_current_health_states_refuse_without_erasing_credit_evidence() {
    for health in [
        CalibrationHealth::Provisional,
        CalibrationHealth::ReviewDue,
        CalibrationHealth::Suspect,
        CalibrationHealth::Superseded,
        CalibrationHealth::Inapplicable,
    ] {
        let result = convert(&credits(10_000_000), &calibration(), &context(), health);
        let facts = missing(&result);
        assert!(
            facts
                .iter()
                .any(|fact| fact == &format!("calibration health: {}", health.label()))
        );
        assert!(result.provenance().sources().contains("cost-model:cost-v1"));
    }
}

#[test]
fn unavailable_credits_keep_their_reason_in_the_window_refusal() {
    let credits = Derivation::unavailable(
        texts(&["unknown component: tool_use_tokens"]),
        Provenance::new(texts(&["cost-model:cost-v1"])),
    )
    .unwrap();
    let result = convert(
        &credits,
        &calibration(),
        &context(),
        CalibrationHealth::Current,
    );
    let facts = missing(&result);
    assert!(
        facts
            .iter()
            .any(|fact| fact == "unknown component: tool_use_tokens")
    );
    assert!(facts.iter().any(|fact| fact == "qualified credits"));
}

#[test]
fn mixed_account_and_plan_strata_keep_distinct_calibration_results() {
    let work = convert(
        &credits(10_000_000),
        &calibration_for("calibration-work-pro", "pro", 100_000),
        &context(),
        CalibrationHealth::Current,
    );
    let research = convert(
        &credits(10_000_000),
        &calibration_for("calibration-research-max", "max", 200_000),
        &WindowConversionContext {
            account: Some("research".to_string()),
            plan_tier: PlanTier::new("max"),
            ..context()
        },
        CalibrationHealth::Current,
    );

    let WindowEquivalentDerivation::Available(work) = work else {
        panic!("work stratum should use its applicable calibration")
    };
    let WindowEquivalentDerivation::Available(research) = research else {
        panic!("research stratum should use its applicable calibration")
    };
    assert_ne!(work.calibration_id, research.calibration_id);
    assert_eq!(work.interval.lower().get(), 100);
    assert_eq!(research.interval.lower().get(), 50);
    assert_ne!(work.interval, research.interval);
}
