//! The health of a calibration.
//!
//! An ageing calibration changes state; its uncertainty is never widened for age
//! alone. Each state other than current has a checkable reason, and where several
//! hold the most fundamental wins. Applicability is a matter of plan tier and of
//! meter and billing semantics only.

use crate::domain::UtcTimestamp;
use crate::ids::{BillingSemanticsId, MeterSemanticsId, PlanTier};
use vstd::prelude::*;
use vstd::string::*;

verus! {

/// The state of one calibration. Only a current one powers a recommendation.
#[derive(Debug, Clone, Copy, PartialEq, Eq, Hash, Structural)]
pub enum CalibrationHealth {
    /// Fitted but never activated: displayable, not authoritative.
    Provisional,
    /// Activated, applicable, without a drift finding, within its review horizon.
    Current,
    /// The configured review horizon passed.
    ReviewDue,
    /// Passive validation found a statistically significant drift.
    Suspect,
    /// It, or the cost model it refers to, was superseded.
    Superseded,
    /// The plan tier or the semantics it was fitted against no longer hold.
    Inapplicable,
}

impl CalibrationHealth {
    /// The one-word name of the state.
    pub open spec fn name(self) -> Seq<char> {
        match self {
            CalibrationHealth::Provisional => "provisional"@,
            CalibrationHealth::Current => "current"@,
            CalibrationHealth::ReviewDue => "review_due"@,
            CalibrationHealth::Suspect => "suspect"@,
            CalibrationHealth::Superseded => "superseded"@,
            CalibrationHealth::Inapplicable => "inapplicable"@,
        }
    }

    /// A stable lower-case label, so that a state is named rather than hidden.
    pub fn label(self) -> (label: &'static str)
        ensures
            label@ == self.name(),
    {
        match self {
            CalibrationHealth::Provisional => "provisional",
            CalibrationHealth::Current => "current",
            CalibrationHealth::ReviewDue => "review_due",
            CalibrationHealth::Suspect => "suspect",
            CalibrationHealth::Superseded => "superseded",
            CalibrationHealth::Inapplicable => "inapplicable",
        }
    }
}

/// Where a calibration stands between activation and supersession.
#[derive(Debug, Clone, Copy, PartialEq, Eq, Structural)]
pub enum LifecycleState {
    /// No activation: still a candidate.
    NeverActivated,
    /// Activated and not since superseded.
    Active,
    /// Superseded after activation.
    Superseded,
}

/// A statistically significant drift finding. It has an identity and no magnitude: that
/// it exists is what moves the state.
#[derive(Debug, Clone, PartialEq, Eq)]
pub struct SignificantDrift {
    pub finding_id: String,
}

/// What the environment's semantics are now. No adapter or schema version is part of
/// it, so an upgrade of either cannot reach the health of a calibration.
#[derive(Debug, Clone, PartialEq, Eq)]
pub struct ApplicabilityContext {
    pub plan_tier: PlanTier,
    pub meter_semantics_id: MeterSemanticsId,
    pub billing_semantics_id: BillingSemanticsId,
}

/// What a calibration was fitted against.
#[derive(Debug, Clone, PartialEq, Eq)]
pub struct CalibrationFacts {
    pub plan_tier: PlanTier,
    pub meter_semantics_id: MeterSemanticsId,
    pub billing_semantics_id: BillingSemanticsId,
}

/// Everything the health of a calibration depends on besides the clock.
#[derive(Debug, Clone, PartialEq, Eq)]
pub struct HealthInputs<'a> {
    pub calibration: &'a CalibrationFacts,
    pub context: &'a ApplicabilityContext,
    pub lifecycle: LifecycleState,
    /// Whether the cost model it refers to was superseded.
    pub cost_model_superseded: bool,
    /// The drift finding, where passive validation made one.
    pub drift: Option<&'a SignificantDrift>,
    /// When the review horizon passes, where one is configured.
    pub review_due_at: Option<UtcTimestamp>,
}

/// Whether the scope of a calibration matches the environment.
pub open spec fn applicable(calibration: CalibrationFacts, context: ApplicabilityContext) -> bool {
    &&& calibration.plan_tier@ == context.plan_tier@
    &&& calibration.meter_semantics_id@ == context.meter_semantics_id@
    &&& calibration.billing_semantics_id@ == context.billing_semantics_id@
}

/// Whether a review horizon has passed.
pub open spec fn review_passed(due: Option<UtcTimestamp>, now: UtcTimestamp) -> bool {
    due is Some && now.nanos >= due->0.nanos
}

/// The health of a calibration, the most fundamental reason first.
pub open spec fn health(inputs: HealthInputs, now: UtcTimestamp) -> CalibrationHealth {
    if !applicable(*inputs.calibration, *inputs.context) {
        CalibrationHealth::Inapplicable
    } else if inputs.lifecycle is Superseded || inputs.cost_model_superseded {
        CalibrationHealth::Superseded
    } else if inputs.lifecycle is NeverActivated {
        CalibrationHealth::Provisional
    } else if inputs.drift is Some {
        CalibrationHealth::Suspect
    } else if review_passed(inputs.review_due_at, now) {
        CalibrationHealth::ReviewDue
    } else {
        CalibrationHealth::Current
    }
}

fn applies(calibration: &CalibrationFacts, context: &ApplicabilityContext) -> (same: bool)
    ensures
        same == applicable(*calibration, *context),
{
    calibration.plan_tier.same(&context.plan_tier) && calibration.meter_semantics_id.same(
        &context.meter_semantics_id,
    ) && calibration.billing_semantics_id.same(&context.billing_semantics_id)
}

/// The health of a calibration given the environment and the evidence. Where several
/// reasons hold, the order is inapplicable, superseded, provisional, suspect, review
/// due.
pub fn compute_health(inputs: &HealthInputs<'_>, now: UtcTimestamp) -> (state: CalibrationHealth)
    ensures
        state == health(*inputs, now),
{
    if !applies(inputs.calibration, inputs.context) {
        return CalibrationHealth::Inapplicable;
    }
    if inputs.lifecycle == LifecycleState::Superseded || inputs.cost_model_superseded {
        return CalibrationHealth::Superseded;
    }
    if inputs.lifecycle == LifecycleState::NeverActivated {
        return CalibrationHealth::Provisional;
    }
    if inputs.drift.is_some() {
        return CalibrationHealth::Suspect;
    }
    match inputs.review_due_at {
        Some(due) => if now.unix_nanos() >= due.unix_nanos() {
            CalibrationHealth::ReviewDue
        } else {
            CalibrationHealth::Current
        },
        None => CalibrationHealth::Current,
    }
}

/// A calibration that is not current, with the state found.
#[derive(Debug, Clone, Copy, PartialEq, Eq, Structural)]
pub struct NotCurrentApplicable {
    pub health: CalibrationHealth,
}

impl NotCurrentApplicable {
    /// The sentence shown for this refusal.
    pub open spec fn text(self) -> Seq<char> {
        "calibration is "@ + self.health.name()
            + " rather than current-applicable; it does not power a routing recommendation"@
    }

    /// Renders the refusal as a sentence.
    pub fn message(&self) -> (message: String)
        ensures
            message@ == self.text(),
    {
        let mut message: String = "calibration is ".to_owned();
        message.append(self.health.label());
        message.append(
            " rather than current-applicable; it does not power a routing recommendation",
        );
        message
    }
}

/// Accepts a current calibration and refuses every other state by name.
pub fn require_current_applicable(health: CalibrationHealth) -> (verdict: Result<
    (),
    NotCurrentApplicable,
>)
    ensures
        verdict is Ok <==> health is Current,
        verdict matches Err(refusal) ==> refusal.health == health,
{
    match health {
        CalibrationHealth::Current => Ok(()),
        CalibrationHealth::Provisional
        | CalibrationHealth::ReviewDue
        | CalibrationHealth::Suspect
        | CalibrationHealth::Superseded
        | CalibrationHealth::Inapplicable => Err(NotCurrentApplicable { health }),
    }
}

/// A calibration is current exactly where it applies, is active, refers to a cost model
/// in force, has no drift finding, and is within its review horizon.
pub proof fn law_current_needs_every_condition(inputs: HealthInputs, now: UtcTimestamp)
    ensures
        health(inputs, now) is Current <==> {
            &&& applicable(*inputs.calibration, *inputs.context)
            &&& inputs.lifecycle is Active
            &&& !inputs.cost_model_superseded
            &&& inputs.drift is None
            &&& !review_passed(inputs.review_due_at, now)
        },
{
}

/// Time alone only ever moves a calibration from current to review due, and never back.
pub proof fn law_ageing_only_makes_review_due(
    inputs: HealthInputs,
    now: UtcTimestamp,
    later: UtcTimestamp,
)
    requires
        now.nanos <= later.nanos,
    ensures
        health(inputs, later) == health(inputs, now) || (health(inputs, now) is Current && health(
            inputs,
            later,
        ) is ReviewDue),
        inputs.review_due_at is None ==> health(inputs, later) == health(inputs, now),
{
}

/// No two states share a label.
pub proof fn law_labels_are_distinct(a: CalibrationHealth, b: CalibrationHealth)
    requires
        a != b,
    ensures
        a.name() != b.name(),
{
    reveal_strlit("provisional");
    reveal_strlit("current");
    reveal_strlit("review_due");
    reveal_strlit("suspect");
    reveal_strlit("superseded");
    reveal_strlit("inapplicable");
    assert("provisional"@.len() == 11);
    assert("current"@.len() == 7 && "current"@[0] == 'c');
    assert("review_due"@.len() == 10 && "review_due"@[0] == 'r');
    assert("suspect"@.len() == 7 && "suspect"@[0] == 's');
    assert("superseded"@.len() == 10 && "superseded"@[0] == 's');
    assert("inapplicable"@.len() == 12);
}

/// What is worst decides: a calibration fitted for another plan tier, meter or billing is
/// inapplicable whatever else holds; one that applies is superseded where it or its cost
/// model was; otherwise provisional where it was never activated; otherwise suspect where
/// a drift was found; otherwise due for review from the moment its horizon passes; and
/// current only where none of that holds.
pub proof fn law_the_worst_state_decides(inputs: HealthInputs, now: UtcTimestamp)
    ensures
        ({
            let foreign = inputs.calibration.plan_tier@ != inputs.context.plan_tier@
                || inputs.calibration.meter_semantics_id@ != inputs.context.meter_semantics_id@
                || inputs.calibration.billing_semantics_id@
                != inputs.context.billing_semantics_id@;
            let replaced = inputs.lifecycle == LifecycleState::Superseded
                || inputs.cost_model_superseded;
            let inactive = inputs.lifecycle == LifecycleState::NeverActivated;
            let drifted = inputs.drift is Some;
            let aged = inputs.review_due_at matches Some(due) && due.nanos <= now.nanos;
            &&& foreign ==> health(inputs, now) == CalibrationHealth::Inapplicable
            &&& !foreign && replaced ==> health(inputs, now) == CalibrationHealth::Superseded
            &&& !foreign && !replaced && inactive ==> health(inputs, now)
                == CalibrationHealth::Provisional
            &&& !foreign && !replaced && !inactive && drifted ==> health(inputs, now)
                == CalibrationHealth::Suspect
            &&& !foreign && !replaced && !inactive && !drifted && aged ==> health(inputs, now)
                == CalibrationHealth::ReviewDue
            &&& !foreign && !replaced && !inactive && !drifted && !aged ==> health(inputs, now)
                == CalibrationHealth::Current
        }),
{
}

} // verus!
