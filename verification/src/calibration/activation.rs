//! The conditions of activation.
//!
//! A fit is not validated by residuals against the observations it was fitted to. An
//! activation therefore presents two disjoint sets of evidence, and the result carries
//! a residual computed against the second. The checks run in a fixed order: the
//! activation must judge what the result was validated against, that evidence must be
//! independent, the candidate must be sound, and only then does the residual count.
//! Each refusal names its reason.

use crate::calibration::contamination::{
    require_uncontaminated_for_activation, ContaminationVerdict, FindingView,
};
use crate::calibration::fitter::{
    in_time_order, law_least_credits_are_carried, law_time_order_is_chronological, least_credits,
    lemma_least_credits,
    lowest_credits, time_order, AdmissibleInterval, FitObservation,
};
use crate::domain::{Credits, CreditsPerPercentagePoint};
use crate::error::{Error, ErrorView};
use crate::order::positions;
use crate::records::{ConditionNumber, EvidenceFingerprint};
use crate::sets::{copied_texts, join_texts, joined, texts, TextSet};
use crate::text::{decimal, decimal_text, same_text, signed_decimal, signed_decimal_text};
use vstd::prelude::*;
use vstd::string::*;

verus! {

/// Why an activation could not even be put forward.
#[derive(Debug, Clone, PartialEq, Eq, Structural)]
pub enum ActivationConfigError {
    EmptyPolicyVersion,
    EmptyActor,
}

impl ActivationConfigError {
    /// The sentence shown for this error.
    pub open spec fn text(self) -> Seq<char> {
        match self {
            ActivationConfigError::EmptyPolicyVersion =>
                "activation policy version cannot be empty"@,
            ActivationConfigError::EmptyActor => "activation actor cannot be empty"@,
        }
    }

    /// Renders the error as a sentence.
    pub fn message(&self) -> (message: String)
        ensures
            message@ == self.text(),
    {
        match self {
            ActivationConfigError::EmptyPolicyVersion =>
                "activation policy version cannot be empty",
            ActivationConfigError::EmptyActor => "activation actor cannot be empty",
        }.to_owned()
    }
}

/// What an activation is judged under: a version and two bounds.
#[derive(Debug, Clone, PartialEq, Eq)]
pub struct ActivationPolicy {
    version: String,
    max_out_of_sample_residual: Credits,
    max_condition_number: ConditionNumber,
}

impl ActivationPolicy {
    /// The version of the policy.
    pub closed spec fn version_text(&self) -> Seq<char> {
        self.version@
    }

    /// The greatest residual that passes.
    pub closed spec fn residual_bound(&self) -> Credits {
        self.max_out_of_sample_residual
    }

    /// The greatest condition number that passes.
    pub closed spec fn condition_bound(&self) -> ConditionNumber {
        self.max_condition_number
    }

    /// Builds a policy; it needs a version.
    pub fn new(
        version: &str,
        max_out_of_sample_residual: Credits,
        max_condition_number: ConditionNumber,
    ) -> (policy: Result<Self, ActivationConfigError>)
        ensures
            match policy {
                Ok(p) => {
                    &&& version@.len() > 0
                    &&& p.version_text() == version@
                    &&& p.residual_bound() == max_out_of_sample_residual
                    &&& p.condition_bound() == max_condition_number
                },
                Err(e) => version@.len() == 0 && e == ActivationConfigError::EmptyPolicyVersion,
            },
    {
        if version.is_empty() {
            return Err(ActivationConfigError::EmptyPolicyVersion);
        }
        Ok(
            ActivationPolicy {
                version: version.to_owned(),
                max_out_of_sample_residual,
                max_condition_number,
            },
        )
    }

    pub fn version(&self) -> (version: &str)
        ensures
            version@ == self.version_text(),
    {
        self.version.as_str()
    }

    pub fn max_out_of_sample_residual(&self) -> (bound: Credits)
        ensures
            bound == self.residual_bound(),
    {
        self.max_out_of_sample_residual
    }

    pub fn max_condition_number(&self) -> (bound: ConditionNumber)
        ensures
            bound == self.condition_bound(),
    {
        self.max_condition_number
    }
}

/// Who performs an activation. It is written down, never left blank.
#[derive(Debug, Clone, PartialEq, Eq, Hash, PartialOrd, Ord)]
pub struct ActivationActor {
    name: String,
}

impl View for ActivationActor {
    type V = Seq<char>;

    closed spec fn view(&self) -> Seq<char> {
        self.name@
    }
}

impl ActivationActor {
    /// An actor with a name.
    pub fn new(value: &str) -> (actor: Result<Self, ActivationConfigError>)
        ensures
            match actor {
                Ok(a) => value@.len() > 0 && a@ == value@,
                Err(e) => value@.len() == 0 && e == ActivationConfigError::EmptyActor,
            },
    {
        if value.is_empty() {
            return Err(ActivationConfigError::EmptyActor);
        }
        Ok(ActivationActor { name: value.to_owned() })
    }

    pub fn as_str(&self) -> (name: &str)
        ensures
            name@ == self@,
    {
        self.name.as_str()
    }
}

/// Which of the two recorded digests a presented set of evidence failed to reproduce.
#[derive(Debug, Clone, Copy, PartialEq, Eq, Structural)]
pub enum EvidenceRole {
    Fitting,
    Validation,
}

impl EvidenceRole {
    /// The word for the role.
    pub open spec fn name(self) -> Seq<char> {
        match self {
            EvidenceRole::Fitting => "fitting"@,
            EvidenceRole::Validation => "validation"@,
        }
    }

    pub fn label(self) -> (label: &'static str)
        ensures
            label@ == self.name(),
    {
        match self {
            EvidenceRole::Fitting => "fitting",
            EvidenceRole::Validation => "validation",
        }
    }
}

/// Why an activation was refused.
#[derive(Debug, Clone, PartialEq, Eq)]
pub enum ActivationRefusal {
    /// The activation names another policy version than the result was validated under.
    PolicyVersionMismatch { result_version: String, activation_version: String },
    /// A presented set of evidence is not the recorded one.
    EvidenceMismatch { role: EvidenceRole },
    /// Training and validation share evidence.
    OverlappingEvidence { overlap: Vec<String> },
    /// A contamination finding stands against the candidate.
    Contaminated { mark: String },
    /// The recorded condition number exceeds the bound.
    IllConditioned { condition_number: ConditionNumber, threshold: ConditionNumber },
    /// The result carries no held-out residual.
    MissingHeldOutResidual,
    /// The recorded held-out residual exceeds the bound.
    HeldOutResidualExceedsPolicy { residual: Credits, maximum: Credits, policy_version: String },
    /// The cost model has no term for a token class that the workload carries.
    IncompleteCostModel { cost_model_id: String, missing: Vec<String> },
}

/// What a refusal says.
pub enum RefusalView {
    PolicyVersionMismatch { result_version: Seq<char>, activation_version: Seq<char> },
    EvidenceMismatch { role: EvidenceRole },
    OverlappingEvidence { overlap: Seq<Seq<char>> },
    Contaminated { mark: Seq<char> },
    IllConditioned { condition_number: ConditionNumber, threshold: ConditionNumber },
    MissingHeldOutResidual,
    HeldOutResidualExceedsPolicy { residual: Credits, maximum: Credits, policy_version: Seq<char> },
    IncompleteCostModel { cost_model_id: Seq<char>, missing: Seq<Seq<char>> },
}

impl View for ActivationRefusal {
    type V = RefusalView;

    open spec fn view(&self) -> RefusalView {
        match *self {
            ActivationRefusal::PolicyVersionMismatch { result_version, activation_version } =>
                RefusalView::PolicyVersionMismatch {
                    result_version: result_version@,
                    activation_version: activation_version@,
                },
            ActivationRefusal::EvidenceMismatch { role } => RefusalView::EvidenceMismatch { role },
            ActivationRefusal::OverlappingEvidence { overlap } =>
                RefusalView::OverlappingEvidence { overlap: texts(overlap@) },
            ActivationRefusal::Contaminated { mark } => RefusalView::Contaminated { mark: mark@ },
            ActivationRefusal::IllConditioned { condition_number, threshold } =>
                RefusalView::IllConditioned { condition_number, threshold },
            ActivationRefusal::MissingHeldOutResidual => RefusalView::MissingHeldOutResidual,
            ActivationRefusal::HeldOutResidualExceedsPolicy {
                residual,
                maximum,
                policy_version,
            } => RefusalView::HeldOutResidualExceedsPolicy {
                residual,
                maximum,
                policy_version: policy_version@,
            },
            ActivationRefusal::IncompleteCostModel { cost_model_id, missing } =>
                RefusalView::IncompleteCostModel {
                    cost_model_id: cost_model_id@,
                    missing: texts(missing@),
                },
        }
    }
}

impl RefusalView {
    /// The sentence shown for a refusal.
    pub open spec fn text(self) -> Seq<char> {
        match self {
            RefusalView::PolicyVersionMismatch { result_version, activation_version } =>
                "activation refused: policy version '"@ + activation_version
                    + "' does not match the policy version '"@ + result_version
                    + "' the result's validation was recorded under; re-record validation under the activation policy before activating"@,
            RefusalView::EvidenceMismatch { role } => "activation refused: the presented "@
                + role.name() + " evidence set does not reproduce the result's recorded "@
                + role.name()
                + " evidence digest; activation judges the recorded evidence, not a substitute set"@,
            RefusalView::OverlappingEvidence { overlap } =>
                "activation refused: training and validation evidence overlap on "@ + decimal(
                    overlap.len(),
                ) + ": "@ + joined(overlap, ", "@)
                    + "; ordinary activation requires disjoint evidence identifier sets"@,
            RefusalView::Contaminated { mark } =>
                "activation refused: candidate is contaminated ("@ + mark
                    + "); a contaminated candidate cannot be activated regardless of its residuals"@,
            RefusalView::IllConditioned { condition_number, threshold } =>
                "activation refused: candidate is ill-conditioned (condition number "@
                    + signed_decimal(condition_number.micros as int)
                    + " exceeds the activation threshold "@ + signed_decimal(
                    threshold.micros as int,
                )
                    + "); an ill-conditioned candidate cannot be activated regardless of its residuals"@,
            RefusalView::MissingHeldOutResidual =>
                "activation refused: no held-out residual is recorded on the result; activation requires a held-out diagnostic computed against the validation evidence"@,
            RefusalView::HeldOutResidualExceedsPolicy { residual, maximum, policy_version } =>
                "activation refused: held-out residual "@ + signed_decimal(residual.micros as int)
                    + " micros exceeds the activation policy maximum "@ + signed_decimal(
                    maximum.micros as int,
                ) + " micros (policy "@ + policy_version + ")"@,
            RefusalView::IncompleteCostModel { cost_model_id, missing } =>
                "activation refused: cost model '"@ + cost_model_id
                    + "' is incomplete: missing coverage for token class(es): "@ + joined(
                    missing,
                    ", "@,
                )
                    + "; no window calibration becomes active unless its referenced cost model covers every token class present in its workload"@,
        }
    }
}

impl ActivationRefusal {
    /// Renders the refusal as a sentence.
    pub fn message(&self) -> (message: String)
        ensures
            message@ == self@.text(),
    {
        match self {
            ActivationRefusal::PolicyVersionMismatch { result_version, activation_version } => {
                let mut m: String = "activation refused: policy version '".to_owned();
                m.append(activation_version.as_str());
                m.append("' does not match the policy version '");
                m.append(result_version.as_str());
                m.append(
                    "' the result's validation was recorded under; re-record validation under the activation policy before activating",
                );
                m
            },
            ActivationRefusal::EvidenceMismatch { role } => {
                let mut m: String = "activation refused: the presented ".to_owned();
                m.append(role.label());
                m.append(" evidence set does not reproduce the result's recorded ");
                m.append(role.label());
                m.append(
                    " evidence digest; activation judges the recorded evidence, not a substitute set",
                );
                m
            },
            ActivationRefusal::OverlappingEvidence { overlap } => {
                let mut m: String =
                    "activation refused: training and validation evidence overlap on ".to_owned();
                m.append(decimal_text(overlap.len() as u128).as_str());
                m.append(": ");
                m.append(join_texts(overlap, ", ").as_str());
                m.append("; ordinary activation requires disjoint evidence identifier sets");
                m
            },
            ActivationRefusal::Contaminated { mark } => {
                let mut m: String = "activation refused: candidate is contaminated (".to_owned();
                m.append(mark.as_str());
                m.append(
                    "); a contaminated candidate cannot be activated regardless of its residuals",
                );
                m
            },
            ActivationRefusal::IllConditioned { condition_number, threshold } => {
                let mut m: String =
                    "activation refused: candidate is ill-conditioned (condition number ".to_owned();
                m.append(signed_decimal_text(condition_number.micros()).as_str());
                m.append(" exceeds the activation threshold ");
                m.append(signed_decimal_text(threshold.micros()).as_str());
                m.append(
                    "); an ill-conditioned candidate cannot be activated regardless of its residuals",
                );
                m
            },
            ActivationRefusal::MissingHeldOutResidual =>
                "activation refused: no held-out residual is recorded on the result; activation requires a held-out diagnostic computed against the validation evidence".to_owned(),
            ActivationRefusal::HeldOutResidualExceedsPolicy {
                residual,
                maximum,
                policy_version,
            } => {
                let mut m: String = "activation refused: held-out residual ".to_owned();
                m.append(signed_decimal_text(residual.micros()).as_str());
                m.append(" micros exceeds the activation policy maximum ");
                m.append(signed_decimal_text(maximum.micros()).as_str());
                m.append(" micros (policy ");
                m.append(policy_version.as_str());
                m.append(")");
                m
            },
            ActivationRefusal::IncompleteCostModel { cost_model_id, missing } => {
                let mut m: String = "activation refused: cost model '".to_owned();
                m.append(cost_model_id.as_str());
                m.append("' is incomplete: missing coverage for token class(es): ");
                m.append(join_texts(missing, ", ").as_str());
                m.append(
                    "; no window calibration becomes active unless its referenced cost model covers every token class present in its workload",
                );
                m
            },
        }
    }

    /// The error a command ends with: a policy outcome not met, never a store failure.
    pub fn into_error(self) -> (error: Error)
        ensures
            error@ == ErrorView::ThresholdNotMet(self@.text()),
    {
        Error::ThresholdNotMet(self.message())
    }
}

/// Everything an activation presents.
#[derive(Debug, Clone, PartialEq, Eq)]
pub struct ActivationRequest<'a> {
    pub actor: &'a ActivationActor,
    pub policy: &'a ActivationPolicy,
    pub training: &'a TextSet,
    pub validation: &'a TextSet,
    pub contamination: &'a ContaminationVerdict,
}

/// What a result says about its own validation.
#[derive(Debug, Clone, PartialEq, Eq)]
pub struct RecordedValidation {
    pub policy_version: String,
    pub held_out_residual: Option<Credits>,
    pub condition_number: Option<ConditionNumber>,
    pub fitting_evidence: EvidenceFingerprint,
    pub validation_evidence: EvidenceFingerprint,
}

/// The evidence that two sets share, in order.
pub open spec fn overlap(training: Seq<Seq<char>>, validation: Seq<Seq<char>>) -> Seq<Seq<char>> {
    training.filter(|id: Seq<char>| validation.contains(id))
}

/// Refuses where training and validation share evidence, naming what they share in
/// order. Identifiers decide, not dates: two experiments can share observations
/// without sharing dates.
pub fn check_evidence_disjoint(training: &TextSet, validation: &TextSet) -> (verdict: Result<
    (),
    ActivationRefusal,
>)
    ensures
        match verdict {
            Ok(()) => overlap(training@, validation@).len() == 0,
            Err(refusal) => overlap(training@, validation@).len() > 0 && refusal@
                == (RefusalView::OverlappingEvidence { overlap: overlap(training@, validation@) }),
        },
{
    let shared: Vec<String> = training.shared_with(validation);
    assert(texts(shared@) == overlap(training@, validation@));
    if shared.len() == 0 {
        Ok(())
    } else {
        Err(ActivationRefusal::OverlappingEvidence { overlap: shared })
    }
}

/// Two sets pass the disjointness check exactly where no identifier is in both.
pub proof fn law_disjoint_means_nothing_shared(
    training: Seq<Seq<char>>,
    validation: Seq<Seq<char>>,
)
    ensures
        overlap(training, validation).len() == 0 <==> forall|id: Seq<char>|
            !(#[trigger] training.contains(id) && validation.contains(id)),
        forall|id: Seq<char>| #[trigger]
            overlap(training, validation).contains(id) <==> training.contains(id)
                && validation.contains(id),
{
    let in_validation = |id: Seq<char>| validation.contains(id);
    let shared = overlap(training, validation);
    assert forall|id: Seq<char>| #[trigger] shared.contains(id) <==> training.contains(id)
        && validation.contains(id) by {
        lemma_filter_members(training, in_validation, id);
    }
    if shared.len() > 0 {
        assert(shared.contains(shared[0]));
        assert(training.contains(shared[0]));
    }
    if exists|id: Seq<char>| #[trigger] training.contains(id) && validation.contains(id) {
        let id = choose|id: Seq<char>| #[trigger] training.contains(id) && validation.contains(id);
        assert(shared.contains(id));
    }
}

/// A filtered list holds exactly the items of the list that are kept.
pub proof fn lemma_filter_members(
    items: Seq<Seq<char>>,
    keep: spec_fn(Seq<char>) -> bool,
    item: Seq<char>,
)
    ensures
        items.filter(keep).contains(item) <==> items.contains(item) && keep(item),
    decreases items.len(),
{
    reveal(Seq::filter);
    if items.len() > 0 {
        let shorter = items.drop_last();
        let last = items.last();
        lemma_filter_members(shorter, keep, item);
        let before = shorter.filter(keep);
        let after = items.filter(keep);
        assert(items[items.len() - 1] == last);
        if items.contains(item) && item != last {
            let k = choose|k: int| 0 <= k < items.len() && items[k] == item;
            assert(shorter[k] == item);
        }
        if shorter.contains(item) {
            let k = choose|k: int| 0 <= k < shorter.len() && shorter[k] == item;
            assert(items[k] == item);
        }
        if keep(last) {
            assert(after == before.push(last));
            assert(after[before.len() as int] == last);
            if before.contains(item) {
                let k = choose|k: int| 0 <= k < before.len() && before[k] == item;
                assert(after[k] == item);
            }
            if after.contains(item) && item != last {
                let k = choose|k: int| 0 <= k < after.len() && after[k] == item;
                assert(before[k] == item);
            }
        }
    }
}

/// Refuses where the cost model misses token classes of the workload, naming the cost
/// model and the classes.
pub fn check_cost_model_completeness(cost_model_id: &str, missing: &Vec<String>) -> (verdict: Result<
    (),
    ActivationRefusal,
>)
    ensures
        match verdict {
            Ok(()) => missing@.len() == 0,
            Err(refusal) => missing@.len() > 0 && refusal@ == (RefusalView::IncompleteCostModel {
                cost_model_id: cost_model_id@,
                missing: texts(missing@),
            }),
        },
{
    if missing.len() == 0 {
        Ok(())
    } else {
        Err(
            ActivationRefusal::IncompleteCostModel {
                cost_model_id: cost_model_id.to_owned(),
                missing: copied_texts(missing),
            },
        )
    }
}

/// The sentence that names the first finding against a candidate.
pub open spec fn first_finding(findings: Seq<FindingView>) -> Seq<char> {
    "candidate refused for activation: contaminated by "@ + findings[0].signal.name() + ": "@
        + findings[0].magnitude.text()
}

/// Why an activation is refused, the most basic reason first; nothing where it passes.
pub open spec fn activation_refusal(
    request: ActivationRequest,
    recorded: RecordedValidation,
) -> Option<RefusalView> {
    let policy = *request.policy;
    if policy.version_text() != recorded.policy_version@ {
        Some(
            RefusalView::PolicyVersionMismatch {
                result_version: recorded.policy_version@,
                activation_version: policy.version_text(),
            },
        )
    } else if EvidenceFingerprint::of(request.training@) != recorded.fitting_evidence {
        Some(RefusalView::EvidenceMismatch { role: EvidenceRole::Fitting })
    } else if EvidenceFingerprint::of(request.validation@) != recorded.validation_evidence {
        Some(RefusalView::EvidenceMismatch { role: EvidenceRole::Validation })
    } else if overlap(request.training@, request.validation@).len() > 0 {
        Some(
            RefusalView::OverlappingEvidence {
                overlap: overlap(request.training@, request.validation@),
            },
        )
    } else if request.contamination@.len() > 0 {
        Some(RefusalView::Contaminated { mark: first_finding(request.contamination@) })
    } else if recorded.condition_number is Some && recorded.condition_number->0.micros
        > policy.condition_bound().micros {
        Some(
            RefusalView::IllConditioned {
                condition_number: recorded.condition_number->0,
                threshold: policy.condition_bound(),
            },
        )
    } else {
        match recorded.held_out_residual {
            None => Some(RefusalView::MissingHeldOutResidual),
            Some(residual) => if residual.micros > policy.residual_bound().micros {
                Some(
                    RefusalView::HeldOutResidualExceedsPolicy {
                        residual,
                        maximum: policy.residual_bound(),
                        policy_version: policy.version_text(),
                    },
                )
            } else {
                None
            },
        }
    }
}

/// Whether a candidate may be activated.
pub fn check_activation(
    request: &ActivationRequest<'_>,
    recorded: &RecordedValidation,
) -> (verdict: Result<(), ActivationRefusal>)
    ensures
        match verdict {
            Ok(()) => activation_refusal(*request, *recorded) is None,
            Err(refusal) => activation_refusal(*request, *recorded) == Some(refusal@),
        },
{
    if !same_text(request.policy.version(), recorded.policy_version.as_str()) {
        return Err(
            ActivationRefusal::PolicyVersionMismatch {
                result_version: recorded.policy_version.clone(),
                activation_version: request.policy.version().to_owned(),
            },
        );
    }
    if EvidenceFingerprint::from_inputs(request.training) != recorded.fitting_evidence {
        return Err(ActivationRefusal::EvidenceMismatch { role: EvidenceRole::Fitting });
    }
    if EvidenceFingerprint::from_inputs(request.validation) != recorded.validation_evidence {
        return Err(ActivationRefusal::EvidenceMismatch { role: EvidenceRole::Validation });
    }
    match check_evidence_disjoint(request.training, request.validation) {
        Ok(()) => {},
        Err(refusal) => {
            return Err(refusal);
        },
    }
    match require_uncontaminated_for_activation(request.contamination) {
        Ok(()) => {},
        Err(refusal) => {
            return Err(ActivationRefusal::Contaminated { mark: refusal.message() });
        },
    }
    match recorded.condition_number {
        Some(condition_number) => {
            let threshold: ConditionNumber = request.policy.max_condition_number();
            if condition_number.micros() > threshold.micros() {
                return Err(ActivationRefusal::IllConditioned { condition_number, threshold });
            }
        },
        None => {},
    }
    match recorded.held_out_residual {
        None => Err(ActivationRefusal::MissingHeldOutResidual),
        Some(residual) => {
            let maximum: Credits = request.policy.max_out_of_sample_residual();
            if residual.micros() > maximum.micros() {
                Err(
                    ActivationRefusal::HeldOutResidualExceedsPolicy {
                        residual,
                        maximum,
                        policy_version: request.policy.version().to_owned(),
                    },
                )
            } else {
                Ok(())
            }
        },
    }
}

/// An activation passes exactly where every condition holds.
pub proof fn law_activation_needs_every_condition(
    request: ActivationRequest,
    recorded: RecordedValidation,
)
    ensures
        activation_refusal(request, recorded) is None <==> {
            &&& request.policy.version_text() == recorded.policy_version@
            &&& EvidenceFingerprint::of(request.training@) == recorded.fitting_evidence
            &&& EvidenceFingerprint::of(request.validation@) == recorded.validation_evidence
            &&& overlap(request.training@, request.validation@).len() == 0
            &&& request.contamination@.len() == 0
            &&& recorded.condition_number is Some ==> recorded.condition_number->0.micros
                <= request.policy.condition_bound().micros
            &&& recorded.held_out_residual is Some
            &&& recorded.held_out_residual->0.micros <= request.policy.residual_bound().micros
        },
{
}

/// A contaminated or ill-conditioned candidate is refused whatever its residual, and so
/// is one whose evidence overlaps.
pub proof fn law_unsound_candidates_are_refused_whatever_the_residual(
    request: ActivationRequest,
    recorded: RecordedValidation,
    residual: Option<Credits>,
)
    requires
        request.contamination@.len() > 0 || (recorded.condition_number is Some
            && recorded.condition_number->0.micros > request.policy.condition_bound().micros)
            || overlap(request.training@, request.validation@).len() > 0,
    ensures
        activation_refusal(
            request,
            (RecordedValidation { held_out_residual: residual, ..recorded }),
        ) is Some,
        ({
            let refusal = activation_refusal(
                request,
                (RecordedValidation { held_out_residual: residual, ..recorded }),
            )->0;
            !(refusal is MissingHeldOutResidual) && !(refusal is HeldOutResidualExceedsPolicy)
        }),
{
}

/// By how much a coefficient misses an observation, in half millionths of a credit.
///
/// The observation is taken relative to the baseline: its credits above the least of
/// the series, and its interval above the midpoint of the first interval, of which
/// `base` is twice the value. The prediction is proportional.
pub open spec fn miss(observation: FitObservation, coefficient: int, least: int, base: int) -> int {
    let spent = 2 * (observation.cumulative_credits.micros - least);
    let low = (2 * observation.low() - base) * coefficient;
    let high = (2 * observation.high() - base) * coefficient;
    if spent < low {
        low - spent
    } else if spent > high {
        spent - high
    } else {
        0
    }
}

/// The sum of the misses of the first `n` observations.
pub open spec fn total_miss(
    observations: Seq<FitObservation>,
    coefficient: int,
    least: int,
    base: int,
    n: int,
) -> int
    decreases n,
{
    if n <= 0 {
        0
    } else {
        total_miss(observations, coefficient, least, base, n - 1) + miss(
            observations[n - 1],
            coefficient,
            least,
            base,
        )
    }
}

/// Twice the midpoint of the interval of the earliest observation.
pub open spec fn base_reading(observations: Seq<FitObservation>) -> int {
    let first = observations[time_order(observations)[0]];
    first.low() + first.high()
}

/// Whether every quantity a held-out residual is computed from is representable.
pub open spec fn measurable(observations: Seq<FitObservation>) -> bool {
    &&& forall|i: int| 0 <= i < observations.len() ==> (#[trigger] observations[i]).has_interval()
    &&& i64::MIN <= base_reading(observations) <= i64::MAX
    &&& forall|i: int|
        0 <= i < observations.len() ==> (#[trigger] observations[i]).cumulative_credits.micros
            - least_credits(observations) <= i64::MAX
}

/// The mean miss of a coefficient on some observations, rounded to the nearest
/// millionth of a credit with halves up, as far as it is representable.
pub open spec fn held_out(fitted: CreditsPerPercentagePoint, observations: Seq<FitObservation>) -> i64 {
    let coefficient = if fitted.micros < 1 {
        1
    } else {
        fitted.micros as int
    };
    let n = observations.len() as int;
    let total = total_miss(
        observations,
        coefficient,
        least_credits(observations),
        base_reading(observations),
        n,
    );
    let rounded = (total + n) / (2 * n);
    if rounded > i64::MAX {
        i64::MAX
    } else {
        rounded as i64
    }
}

/// Whether every quantity a held-out residual is computed from is representable.
pub fn is_measurable(observations: &Vec<FitObservation>) -> (fits: bool)
    requires
        observations@.len() > 0,
    ensures
        fits == measurable(observations@),
{
    let least: i64 = lowest_credits(observations);
    let mut i: usize = 0;
    while i < observations.len()
        invariant
            i <= observations@.len(),
            least == least_credits(observations@),
            forall|k: int| 0 <= k < i ==> (#[trigger] observations@[k]).has_interval(),
            forall|k: int|
                0 <= k < i ==> (#[trigger] observations@[k]).cumulative_credits.micros
                    - least_credits(observations@) <= i64::MAX,
        decreases observations@.len() - i,
    {
        if !observations[i].interval_fits() {
            assert(!observations@[i as int].has_interval());
            return false;
        }
        if observations[i].cumulative_credits.micros() as i128 - least as i128 > i64::MAX as i128 {
            assert(!(observations@[i as int].cumulative_credits.micros - least_credits(
                observations@,
            ) <= i64::MAX));
            return false;
        }
        i = i + 1;
    }
    let order: Vec<usize> = in_time_order(observations);
    let first: &FitObservation = &observations[order[0]];
    assert(positions(order@)[0] == order@[0]);
    assert(*first == observations@[time_order(observations@)[0]]);
    let interval: AdmissibleInterval = first.interval();
    let base: i128 = interval.lower_ppm() as i128 + interval.upper_ppm() as i128;
    i64::MIN as i128 <= base && base <= i64::MAX as i128
}

proof fn lemma_product_bound(a: int, m: int)
    by (nonlinear_arith)
    requires
        0 <= a <= 3 * 0x8000_0000_0000_0000,
        0 <= m <= 0x7FFF_FFFF_FFFF_FFFF,
    ensures
        0 <= a * m <= 3 * 0x8000_0000_0000_0000 * 0x7FFF_FFFF_FFFF_FFFF,
{
}

fn scaled(offset: i128, coefficient: i64) -> (product: u128)
    requires
        0 <= offset <= 3 * 0x8000_0000_0000_0000,
        coefficient >= 0,
    ensures
        product == offset * coefficient,
        product <= 3 * 0x8000_0000_0000_0000 * 0x7FFF_FFFF_FFFF_FFFF,
{
    proof {
        lemma_product_bound(offset as int, coefficient as int);
    }
    (offset as u128) * (coefficient as u128)
}

fn miss_of(observation: &FitObservation, coefficient: i64, least: i64, base: i64) -> (half_micros:
    u128)
    requires
        observation.has_interval(),
        coefficient >= 1,
        0 <= observation.cumulative_credits.micros - least <= i64::MAX,
    ensures
        half_micros == miss(*observation, coefficient as int, least as int, base as int),
{
    let interval: AdmissibleInterval = observation.interval();
    let spent: u128 = ((observation.cumulative_credits.micros() as i128 - least as i128) * 2)
        as u128;
    let low: i128 = interval.lower_ppm() as i128 * 2 - base as i128;
    let high: i128 = interval.upper_ppm() as i128 * 2 - base as i128;
    if low > 0 {
        let floor: u128 = scaled(low, coefficient);
        if spent < floor {
            return floor - spent;
        }
    } else {
        assert(low * coefficient <= 0) by (nonlinear_arith)
            requires
                low <= 0,
                coefficient >= 1,
        ;
    }
    if high >= 0 {
        let ceiling: u128 = scaled(high, coefficient);
        if spent > ceiling {
            spent - ceiling
        } else {
            0
        }
    } else {
        let below: u128 = scaled(-high, coefficient);
        assert(high * coefficient == -((-high) * coefficient)) by (nonlinear_arith);
        assert((-high) * coefficient >= 0) by (nonlinear_arith)
            requires
                high < 0,
                coefficient >= 1,
        ;
        spent + below
    }
}

/// Carrying one more term: quotient and remainder by the same divisor.
proof fn lemma_carry(q: int, r: int, t: int, d: int)
    requires
        d > 0,
        t >= 0,
    ensures
        (q + t / d) * d + (r + t % d) == q * d + r + t,
        (q + t / d + 1) * d + (r + t % d - d) == q * d + r + t,
        0 <= t % d < d,
        t / d >= 0,
{
    vstd::arithmetic::div_mod::lemma_fundamental_div_mod(t, d);
    assert((q + t / d) * d == q * d + d * (t / d)) by (nonlinear_arith);
    assert((q + t / d + 1) * d == q * d + d * (t / d) + d) by (nonlinear_arith);
    assert(t / d >= 0) by (nonlinear_arith)
        requires
            t >= 0,
            d > 0,
    ;
}

proof fn lemma_quotient_bound(q: int, r: int, total: int, n: int, k: int)
    by (nonlinear_arith)
    requires
        0 <= q,
        0 <= r,
        0 < n,
        0 <= k <= n,
        q * (2 * n) + r == total,
        total <= k * 0x1_0000_0000_0000_0000_0000_0000_0000_0000,
    ensures
        q <= 0x8000_0000_0000_0000_0000_0000_0000_0000,
{
}

proof fn lemma_rounded_mean(q: int, r: int, total: int, n: int)
    requires
        n > 0,
        0 <= r < 2 * n,
        total == q * (2 * n) + r,
    ensures
        (total + n) / (2 * n) == q + (if r >= n {
            1int
        } else {
            0int
        }),
{
    let d = 2 * n;
    if r >= n {
        assert(total + n == (q + 1) * d + (r - n)) by (nonlinear_arith)
            requires
                total == q * d + r,
                d == 2 * n,
        ;
        vstd::arithmetic::div_mod::lemma_fundamental_div_mod_converse(
            total + n,
            d,
            q + 1,
            r - n,
        );
    } else {
        assert(total + n == q * d + (r + n));
        vstd::arithmetic::div_mod::lemma_fundamental_div_mod_converse(total + n, d, q, r + n);
    }
}

/// The held-out residual of a coefficient: how far, in the mean, it misses the
/// validation observations, in their own delta coordinates with no intercept.
///
/// One observation is the baseline itself and validates nothing, so two are needed.
pub fn held_out_residual(
    fitted: CreditsPerPercentagePoint,
    validation: &Vec<FitObservation>,
) -> (residual: Result<Credits, Error>)
    requires
        validation@.len() >= 2 ==> measurable(validation@),
    ensures
        match residual {
            Ok(credits) => validation@.len() >= 2 && credits.micros == held_out(fitted, validation@),
            Err(error) => validation@.len() < 2 && error@ == ErrorView::InsufficientEvidence(
                "held-out validation needs at least 2 observations, found "@ + decimal(
                    validation@.len(),
                ),
            ),
        },
{
    if validation.len() < 2 {
        let mut message: String =
            "held-out validation needs at least 2 observations, found ".to_owned();
        message.append(decimal_text(validation.len() as u128).as_str());
        return Err(Error::InsufficientEvidence(message));
    }
    let order: Vec<usize> = in_time_order(validation);
    let first: &FitObservation = &validation[order[0]];
    assert(positions(order@)[0] == order@[0]);
    assert(*first == validation@[time_order(validation@)[0]]);
    let interval: AdmissibleInterval = first.interval();
    let base: i64 = interval.lower_ppm() + interval.upper_ppm();
    let least: i64 = lowest_credits(validation);
    let coefficient: i64 = if fitted.micros_per_point() < 1 {
        1
    } else {
        fitted.micros_per_point()
    };
    let n: u128 = validation.len() as u128;
    let divisor: u128 = 2 * n;
    let mut quotient: u128 = 0;
    let mut remainder: u128 = 0;
    let mut i: usize = 0;
    proof {
        lemma_least_credits(validation@);
    }
    while i < validation.len()
        invariant
            i <= validation@.len(),
            n == validation@.len(),
            2 <= n <= usize::MAX,
            divisor == 2 * n,
            coefficient >= 1,
            base == base_reading(validation@),
            least == least_credits(validation@),
            measurable(validation@),
            forall|k: int|
                0 <= k < validation@.len() ==> least <= (
                #[trigger] validation@[k]).cumulative_credits.micros,
            remainder < divisor,
            quotient * divisor + remainder == total_miss(
                validation@,
                coefficient as int,
                least as int,
                base as int,
                i as int,
            ),
            quotient * divisor + remainder <= i * 0x1_0000_0000_0000_0000_0000_0000_0000_0000,
            quotient <= 0x8000_0000_0000_0000_0000_0000_0000_0000,
        decreases validation@.len() - i,
    {
        assert(validation@[i as int].has_interval());
        let term: u128 = miss_of(&validation[i], coefficient, least, base);
        let ghost before = quotient * divisor + remainder;
        let ghost q = quotient as int;
        let ghost r = remainder as int;
        proof {
            lemma_carry(q, r, term as int, divisor as int);
            let total = before + term;
            assert(total <= (i + 1) * 0x1_0000_0000_0000_0000_0000_0000_0000_0000);
            lemma_quotient_bound(
                q + term as int / divisor as int,
                r + term as int % divisor as int,
                total,
                n as int,
                i + 1,
            );
            if r + term as int % divisor as int >= divisor {
                lemma_quotient_bound(
                    q + term as int / divisor as int + 1,
                    r + term as int % divisor as int - divisor,
                    total,
                    n as int,
                    i + 1,
                );
            }
        }
        quotient = quotient + term / divisor;
        remainder = remainder + term % divisor;
        if remainder >= divisor {
            quotient = quotient + 1;
            remainder = remainder - divisor;
        }
        i = i + 1;
    }
    proof {
        lemma_rounded_mean(
            quotient as int,
            remainder as int,
            quotient * divisor + remainder,
            n as int,
        );
    }
    if remainder >= n {
        quotient = quotient + 1;
    }
    let most: u128 = i64::MAX as u128;
    if quotient > most {
        Ok(Credits::from_micros(i64::MAX))
    } else {
        Ok(Credits::from_micros(quotient as i64))
    }
}

/// A held-out residual is never negative, and it is zero where the coefficient misses
/// no observation.
pub proof fn law_held_out_residual_measures_misses(
    fitted: CreditsPerPercentagePoint,
    observations: Seq<FitObservation>,
)
    requires
        observations.len() >= 2,
    ensures
        held_out(fitted, observations) >= 0,
        (forall|i: int|
            0 <= i < observations.len() ==> miss(
                #[trigger] observations[i],
                if fitted.micros < 1 {
                    1
                } else {
                    fitted.micros as int
                },
                least_credits(observations),
                base_reading(observations),
            ) == 0) ==> held_out(fitted, observations) == 0,
{
    let coefficient = if fitted.micros < 1 {
        1
    } else {
        fitted.micros as int
    };
    let least = least_credits(observations);
    let base = base_reading(observations);
    let n = observations.len() as int;
    lemma_total_miss(observations, coefficient, least, base, n);
    let total = total_miss(observations, coefficient, least, base, n);
    assert((total + n) / (2 * n) >= 0) by (nonlinear_arith)
        requires
            total >= 0,
            n > 0,
    ;
    if total == 0 {
        vstd::arithmetic::div_mod::lemma_fundamental_div_mod_converse(total + n, 2 * n, 0, n);
    }
}

proof fn lemma_total_miss(
    observations: Seq<FitObservation>,
    coefficient: int,
    least: int,
    base: int,
    n: int,
)
    requires
        0 <= n <= observations.len(),
    ensures
        total_miss(observations, coefficient, least, base, n) >= 0,
        (forall|i: int|
            0 <= i < n ==> miss(#[trigger] observations[i], coefficient, least, base) == 0)
            ==> total_miss(observations, coefficient, least, base, n) == 0,
    decreases n,
{
    if n > 0 {
        lemma_total_miss(observations, coefficient, least, base, n - 1);
        if forall|i: int|
            0 <= i < n ==> miss(#[trigger] observations[i], coefficient, least, base) == 0 {
            assert(miss(observations[n - 1], coefficient, least, base) == 0);
        }
    }
}

/// A refusal names what stands against the activation, with the figures that were
/// recorded and the bounds that were asked for; and nothing that would have been named
/// before it stands against it.
pub proof fn law_refusals_say_what_is_wrong(
    request: ActivationRequest,
    recorded: RecordedValidation,
)
    ensures
        match activation_refusal(request, recorded) {
            Some(RefusalView::PolicyVersionMismatch { result_version, activation_version }) => {
                &&& result_version == recorded.policy_version@
                &&& activation_version == request.policy.version_text()
                &&& result_version != activation_version
            },
            Some(RefusalView::EvidenceMismatch { role: EvidenceRole::Fitting }) => {
                &&& request.policy.version_text() == recorded.policy_version@
                &&& EvidenceFingerprint::of(request.training@) != recorded.fitting_evidence
            },
            Some(RefusalView::EvidenceMismatch { role: EvidenceRole::Validation }) => {
                &&& EvidenceFingerprint::of(request.training@) == recorded.fitting_evidence
                &&& EvidenceFingerprint::of(request.validation@) != recorded.validation_evidence
            },
            Some(RefusalView::OverlappingEvidence { overlap: shared }) => {
                &&& EvidenceFingerprint::of(request.validation@) == recorded.validation_evidence
                &&& shared.len() > 0
                &&& forall|id: Seq<char>| #[trigger]
                    shared.contains(id) <==> request.training@.contains(id)
                        && request.validation@.contains(id)
            },
            Some(RefusalView::Contaminated { mark }) => {
                &&& forall|id: Seq<char>|
                    !(#[trigger] request.training@.contains(id) && request.validation@.contains(id))
                &&& request.contamination@.len() > 0
                &&& mark == "candidate refused for activation: contaminated by "@
                    + request.contamination@[0].signal.name() + ": "@
                    + request.contamination@[0].magnitude.text()
            },
            Some(RefusalView::IllConditioned { condition_number, threshold }) => {
                &&& request.contamination@.len() == 0
                &&& recorded.condition_number == Some(condition_number)
                &&& threshold == request.policy.condition_bound()
                &&& condition_number.micros > threshold.micros
            },
            Some(RefusalView::MissingHeldOutResidual) => {
                &&& request.contamination@.len() == 0
                &&& recorded.held_out_residual is None
            },
            Some(
                RefusalView::HeldOutResidualExceedsPolicy { residual, maximum, policy_version },
            ) => {
                &&& request.contamination@.len() == 0
                &&& recorded.held_out_residual == Some(residual)
                &&& maximum == request.policy.residual_bound()
                &&& residual.micros > maximum.micros
                &&& policy_version == recorded.policy_version@
            },
            Some(RefusalView::IncompleteCostModel { .. }) => false,
            None => {
                &&& recorded.held_out_residual matches Some(residual) && residual.micros
                    <= request.policy.residual_bound().micros
                &&& recorded.condition_number matches Some(condition) ==> condition.micros
                    <= request.policy.condition_bound().micros
            },
        },
{
    law_disjoint_means_nothing_shared(request.training@, request.validation@);
}

/// A reading is missed by the distance of the credits spent up to it from what its
/// interval is worth at the coefficient, both counted from the first reading: by nothing
/// where they lie within, by what is lacking where they lie below, and by what is over
/// where they lie above.
pub proof fn law_a_reading_is_missed_by_its_distance(
    observation: FitObservation,
    coefficient: int,
    least: int,
    base: int,
    micros: int,
)
    requires
        coefficient >= 1,
        observation.low() <= observation.high(),
        micros >= 0,
    ensures
        ({
            let spent = 2 * (observation.cumulative_credits.micros - least);
            let off = miss(observation, coefficient, least, base);
            &&& off >= 0
            &&& off == 0 <==> (2 * observation.low() - base) * coefficient <= spent <= (2
                * observation.high() - base) * coefficient
            &&& spent + micros == (2 * observation.low() - base) * coefficient ==> off == micros
            &&& spent - micros == (2 * observation.high() - base) * coefficient ==> off == micros
        }),
{
    assert((2 * observation.low() - base) * coefficient <= (2 * observation.high() - base)
        * coefficient) by (nonlinear_arith)
        requires
            coefficient >= 1,
            observation.low() <= observation.high(),
    ;
}

proof fn lemma_misses_bound_their_total(
    observations: Seq<FitObservation>,
    coefficient: int,
    least: int,
    base: int,
    fewest: int,
    most: int,
    n: int,
)
    requires
        0 <= n <= observations.len(),
        forall|i: int|
            0 <= i < observations.len() ==> fewest <= miss(
                #[trigger] observations[i],
                coefficient,
                least,
                base,
            ) <= most,
    ensures
        fewest * n <= total_miss(observations, coefficient, least, base, n) <= most * n,
    decreases n,
{
    if n > 0 {
        lemma_misses_bound_their_total(
            observations,
            coefficient,
            least,
            base,
            fewest,
            most,
            n - 1,
        );
        assert(fewest <= miss(observations[n - 1], coefficient, least, base) <= most);
        assert(fewest * n == fewest * (n - 1) + fewest && most * n == most * (n - 1) + most)
            by (nonlinear_arith);
    } else {
        assert(fewest * 0 == 0 && most * 0 == 0) by (nonlinear_arith);
    }
}

/// The held-out residual is a mean over all readings, at the fitted coefficient or at one
/// where that is less: where every reading is missed by at least some micros and by at
/// most some others, so is the residual, as far as it is representable.
pub proof fn law_held_out_residual_is_a_mean(
    fitted: CreditsPerPercentagePoint,
    observations: Seq<FitObservation>,
    fewest: int,
    most: int,
)
    requires
        observations.len() >= 2,
        forall|i: int|
            0 <= i < observations.len() ==> 2 * fewest <= miss(
                #[trigger] observations[i],
                if fitted.micros < 1 {
                    1
                } else {
                    fitted.micros as int
                },
                least_credits(observations),
                base_reading(observations),
            ) <= 2 * most,
        0 <= fewest <= i64::MAX,
    ensures
        fewest <= held_out(fitted, observations) <= most || held_out(fitted, observations)
            == i64::MAX,
        most <= i64::MAX ==> fewest <= held_out(fitted, observations) <= most,
{
    let coefficient = if fitted.micros < 1 {
        1
    } else {
        fitted.micros as int
    };
    let n = observations.len() as int;
    let least = least_credits(observations);
    let base = base_reading(observations);
    lemma_misses_bound_their_total(
        observations,
        coefficient,
        least,
        base,
        2 * fewest,
        2 * most,
        n,
    );
    let total = total_miss(observations, coefficient, least, base, n);
    let rounded = (total + n) / (2 * n);
    let rest = (total + n) % (2 * n);
    vstd::arithmetic::div_mod::lemma_fundamental_div_mod(total + n, 2 * n);
    assert(fewest <= rounded <= most) by (nonlinear_arith)
        requires
            total + n == 2 * n * rounded + rest,
            0 <= rest < 2 * n,
            n >= 2,
            (2 * fewest) * n <= total <= (2 * most) * n,
    ;
}

/// Credits are counted from the observation that carries the least, and readings from
/// twice the middle of the one that comes first in time: no other observation is earlier.
pub proof fn law_readings_are_counted_from_the_first(observations: Seq<FitObservation>) -> (first:
    int)
    requires
        observations.len() > 0,
    ensures
        0 <= first < observations.len(),
        base_reading(observations) == observations[first].low() + observations[first].high(),
        forall|i: int|
            0 <= i < observations.len() ==> observations[first].at.nanos <= (
            #[trigger] observations[i]).at.nanos,
{
    law_time_order_is_chronological(observations);
    let order = time_order(observations);
    let first = order[0];
    assert(order.contains(first));
    assert forall|i: int| 0 <= i < observations.len() implies observations[first].at.nanos <= (
    #[trigger] observations[i]).at.nanos by {
        assert(order.contains(i));
        let k = choose|k: int| 0 <= k < order.len() && order[k] == i;
        assert(observations[order[0]].at.nanos <= observations[order[k]].at.nanos);
    }
    first
}

/// Ordinary readings can be measured: those of a window, at a resolution within it, whose
/// credits are not negative.
pub proof fn law_ordinary_readings_are_measurable(observations: Seq<FitObservation>)
    requires
        observations.len() > 0,
        forall|i: int|
            0 <= i < observations.len() ==> 0 <= (#[trigger] observations[i]).quota_used_ppm
                <= 1_000_000 && 0 <= observations[i].reported_resolution_ppm <= 1_000_000 && 0
                <= observations[i].cumulative_credits.micros,
    ensures
        measurable(observations),
{
    let first = law_readings_are_counted_from_the_first(observations);
    let least = law_least_credits_are_carried(observations);
    assert(observations[first].quota_used_ppm >= 0);
    assert(observations[least].cumulative_credits.micros >= 0);
}

} // verus!
