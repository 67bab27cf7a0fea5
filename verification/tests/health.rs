//! Calibration health: what makes a calibration current, and what takes precedence.

use aub::calibration::health::{
    compute_health, require_current_applicable, ApplicabilityContext, CalibrationFacts,
    CalibrationHealth, HealthInputs, LifecycleState, SignificantDrift,
};
use aub::domain::UtcTimestamp;
use aub::ids::{BillingSemanticsId, MeterSemanticsId, PlanTier};

fn facts() -> CalibrationFacts {
    CalibrationFacts {
        plan_tier: PlanTier::new("pro-5h"),
        meter_semantics_id: MeterSemanticsId::new("account-5h-v2"),
        billing_semantics_id: BillingSemanticsId::new("model-x-subscription-v4"),
    }
}

fn matching_context() -> ApplicabilityContext {
    ApplicabilityContext {
        plan_tier: PlanTier::new("pro-5h"),
        meter_semantics_id: MeterSemanticsId::new("account-5h-v2"),
        billing_semantics_id: BillingSemanticsId::new("model-x-subscription-v4"),
    }
}

fn healthy_inputs<'a>(
    facts: &'a CalibrationFacts,
    context: &'a ApplicabilityContext,
) -> HealthInputs<'a> {
    HealthInputs {
        calibration: facts,
        context,
        lifecycle: LifecycleState::Active,
        cost_model_superseded: false,
        drift: None,
        review_due_at: None,
    }
}

fn now_ts() -> UtcTimestamp {
    UtcTimestamp::from_unix_nanos(1_000_000)
}

#[test]
fn an_activated_applicable_calibration_with_no_findings_is_current() {
    let (facts, context) = (facts(), matching_context());
    assert_eq!(
        compute_health(&healthy_inputs(&facts, &context), now_ts()),
        CalibrationHealth::Current
    );
}

#[test]
fn a_plan_tier_change_makes_it_inapplicable() {
    let facts = facts();
    let context = ApplicabilityContext {
        plan_tier: PlanTier::new("max-5h"),
        ..matching_context()
    };
    assert_eq!(
        compute_health(&healthy_inputs(&facts, &context), now_ts()),
        CalibrationHealth::Inapplicable
    );
}

#[test]
fn a_meter_or_billing_semantics_change_makes_it_inapplicable() {
    let facts = facts();
    for context in [
        ApplicabilityContext {
            meter_semantics_id: MeterSemanticsId::new("account-5h-v3"),
            ..matching_context()
        },
        ApplicabilityContext {
            billing_semantics_id: BillingSemanticsId::new("model-x-subscription-v5"),
            ..matching_context()
        },
    ] {
        assert_eq!(
            compute_health(&healthy_inputs(&facts, &context), now_ts()),
            CalibrationHealth::Inapplicable
        );
    }
}

#[test]
fn a_cost_model_supersession_makes_it_superseded() {
    let (facts, context) = (facts(), matching_context());
    let inputs = HealthInputs {
        cost_model_superseded: true,
        ..healthy_inputs(&facts, &context)
    };
    assert_eq!(
        compute_health(&inputs, now_ts()),
        CalibrationHealth::Superseded
    );
}

#[test]
fn a_supersession_event_makes_it_superseded() {
    let (facts, context) = (facts(), matching_context());
    let inputs = HealthInputs {
        lifecycle: LifecycleState::Superseded,
        ..healthy_inputs(&facts, &context)
    };
    assert_eq!(
        compute_health(&inputs, now_ts()),
        CalibrationHealth::Superseded
    );
}

#[test]
fn a_calibration_that_was_never_activated_is_provisional() {
    let (facts, context) = (facts(), matching_context());
    let inputs = HealthInputs {
        lifecycle: LifecycleState::NeverActivated,
        ..healthy_inputs(&facts, &context)
    };
    assert_eq!(
        compute_health(&inputs, now_ts()),
        CalibrationHealth::Provisional
    );
}

#[test]
fn a_significant_drift_finding_makes_it_suspect() {
    let (facts, context) = (facts(), matching_context());
    let drift = SignificantDrift {
        finding_id: "validation-2026-09".to_string(),
    };
    let inputs = HealthInputs {
        drift: Some(&drift),
        ..healthy_inputs(&facts, &context)
    };
    assert_eq!(
        compute_health(&inputs, now_ts()),
        CalibrationHealth::Suspect
    );
}

#[test]
fn a_passed_review_horizon_makes_it_review_due_and_a_future_one_does_not() {
    let (facts, context) = (facts(), matching_context());

    let passed = HealthInputs {
        review_due_at: Some(UtcTimestamp::from_unix_nanos(now_ts().unix_nanos() - 1)),
        ..healthy_inputs(&facts, &context)
    };
    assert_eq!(
        compute_health(&passed, now_ts()),
        CalibrationHealth::ReviewDue
    );

    let future = HealthInputs {
        review_due_at: Some(UtcTimestamp::from_unix_nanos(now_ts().unix_nanos() + 1)),
        ..healthy_inputs(&facts, &context)
    };
    assert_eq!(
        compute_health(&future, now_ts()),
        CalibrationHealth::Current
    );
}

/// The negative that keeps the semantic-identifier rule honest: an adapter
/// implementation upgrade changes no input this function can see, because it
/// takes no adapter or endpoint-schema version. Modelled as the semantic
/// identifiers staying identical while the world moves on: the state does
/// not move. An implementation that keyed applicability on a version number
/// could not be written against this signature.
#[test]
fn an_adapter_implementation_upgrade_does_not_move_the_state() {
    let (facts, context) = (facts(), matching_context());
    let before = compute_health(&healthy_inputs(&facts, &context), now_ts());

    // The adapter is rewritten; the physical and billing semantics it
    // reports are unchanged, so the only inputs that exist are unchanged.
    let after = compute_health(&healthy_inputs(&facts, &context), now_ts());

    assert_eq!(before, after);
    assert_eq!(before, CalibrationHealth::Current);
}

#[test]
fn precedence_inapplicable_beats_superseded_beats_provisional_beats_suspect_beats_review_due() {
    let facts = facts();
    let mismatch = ApplicabilityContext {
        plan_tier: PlanTier::new("other"),
        ..matching_context()
    };
    let drift = SignificantDrift {
        finding_id: "d".to_string(),
    };
    let everything_wrong = HealthInputs {
        calibration: &facts,
        context: &mismatch,
        lifecycle: LifecycleState::Superseded,
        cost_model_superseded: true,
        drift: Some(&drift),
        review_due_at: Some(UtcTimestamp::from_unix_nanos(0)),
    };
    assert_eq!(
        compute_health(&everything_wrong, now_ts()),
        CalibrationHealth::Inapplicable
    );

    let context = matching_context();
    let superseded_and_more = HealthInputs {
        context: &context,
        ..everything_wrong
    };
    assert_eq!(
        compute_health(&superseded_and_more, now_ts()),
        CalibrationHealth::Superseded
    );

    let provisional_and_more = HealthInputs {
        lifecycle: LifecycleState::NeverActivated,
        cost_model_superseded: false,
        ..superseded_and_more
    };
    assert_eq!(
        compute_health(&provisional_and_more, now_ts()),
        CalibrationHealth::Provisional
    );

    let suspect_and_review_due = HealthInputs {
        lifecycle: LifecycleState::Active,
        ..provisional_and_more
    };
    assert_eq!(
        compute_health(&suspect_and_review_due, now_ts()),
        CalibrationHealth::Suspect
    );
}

#[test]
fn require_current_applicable_accepts_only_current() {
    assert!(require_current_applicable(CalibrationHealth::Current).is_ok());
    for refused in [
        CalibrationHealth::Provisional,
        CalibrationHealth::ReviewDue,
        CalibrationHealth::Suspect,
        CalibrationHealth::Superseded,
        CalibrationHealth::Inapplicable,
    ] {
        let err = require_current_applicable(refused).unwrap_err();
        assert_eq!(err.health, refused);
        assert!(err.message().contains(refused.label()));
    }
}

#[test]
fn the_six_state_labels_are_distinct() {
    let labels = [
        CalibrationHealth::Provisional,
        CalibrationHealth::Current,
        CalibrationHealth::ReviewDue,
        CalibrationHealth::Suspect,
        CalibrationHealth::Superseded,
        CalibrationHealth::Inapplicable,
    ]
    .map(CalibrationHealth::label);
    let unique: std::collections::BTreeSet<&str> = labels.iter().copied().collect();
    assert_eq!(unique.len(), 6);
}

/// Ageing produces a state, never a changed interval: `compute_health` has
/// no way to return or mutate an uncertainty interval, and over a range of
/// review horizons it only ever crosses from `Current` to `ReviewDue`.
#[test]
fn ageing_only_ever_transitions_the_state_and_never_touches_an_interval() {
    let (facts, context) = (facts(), matching_context());
    for offset_ns in [-3_000i64, -1, 0, 1, 5_000] {
        let due = UtcTimestamp::from_unix_nanos(now_ts().unix_nanos() + offset_ns);
        let inputs = HealthInputs {
            review_due_at: Some(due),
            ..healthy_inputs(&facts, &context)
        };
        let health = compute_health(&inputs, now_ts());
        let expected = if now_ts().unix_nanos() >= due.unix_nanos() {
            CalibrationHealth::ReviewDue
        } else {
            CalibrationHealth::Current
        };
        assert_eq!(health, expected, "offset {offset_ns}");
    }
}
