//! The activation rules: disjoint evidence, recorded policy, soundness before numbers.

use aub::calibration::activation::{
    check_activation, check_evidence_disjoint, held_out_residual, ActivationActor,
    ActivationPolicy, ActivationRefusal, ActivationRequest, EvidenceRole, RecordedValidation,
};
use aub::calibration::contamination::{
    evaluate_contamination, ContaminationInputs, ContaminationMarkerPoint,
    ContaminationMeterPoint, ContaminationThresholds, ContaminationVerdict,
};
use aub::calibration::fitter::FitObservation;
use aub::domain::{
    Credits, CreditsPerPercentagePoint, QuantizationSemantics, QuotaFractionPpm, QuotaUsed,
    UtcTimestamp,
};
use aub::ids::EvidenceId;
use aub::records::{ConditionNumber, EvidenceFingerprint};
use aub::sets::TextSet;

fn ts(nanos: i64) -> UtcTimestamp {
    UtcTimestamp::from_unix_nanos(nanos)
}

fn evidence(ids: &[&str]) -> TextSet {
    let mut set = TextSet::new();
    for id in ids {
        set.insert(id);
    }
    set
}

fn policy(version: &str, max_residual_micros: i64) -> ActivationPolicy {
    ActivationPolicy::new(
        version,
        Credits::from_micros(max_residual_micros),
        ConditionNumber::from_micros(30_000_000),
    )
    .unwrap()
}

fn recorded(
    policy_version: &str,
    training: &TextSet,
    validation: &TextSet,
    residual: Option<Credits>,
    condition: Option<ConditionNumber>,
) -> RecordedValidation {
    RecordedValidation {
        policy_version: policy_version.to_string(),
        held_out_residual: residual,
        condition_number: condition,
        fitting_evidence: EvidenceFingerprint::from_inputs(training),
        validation_evidence: EvidenceFingerprint::from_inputs(validation),
    }
}

fn request<'a>(
    actor: &'a ActivationActor,
    policy: &'a ActivationPolicy,
    training: &'a TextSet,
    validation: &'a TextSet,
    verdict: &'a ContaminationVerdict,
) -> ActivationRequest<'a> {
    ActivationRequest {
        actor,
        policy,
        training,
        validation,
        contamination: verdict,
    }
}

fn passing_parts() -> (ActivationActor, ActivationPolicy, ContaminationVerdict) {
    (
        ActivationActor::new("test").unwrap(),
        policy("ap-v1", 100_000),
        ContaminationVerdict::clean(),
    )
}

/// Overlapping training and validation sets are refused with the overlap
/// named; the near-identical disjoint pair passes.
#[test]
fn overlapping_evidence_is_refused_naming_the_overlap() {
    let training = evidence(&["a", "b"]);
    let validation = evidence(&["b", "c"]);
    let refusal = check_evidence_disjoint(&training, &validation).unwrap_err();
    match &refusal {
        ActivationRefusal::OverlappingEvidence { overlap } => {
            assert_eq!(overlap, &vec!["b".to_string()]);
        }
        other @ (ActivationRefusal::PolicyVersionMismatch { .. }
        | ActivationRefusal::EvidenceMismatch { .. }
        | ActivationRefusal::Contaminated { .. }
        | ActivationRefusal::IllConditioned { .. }
        | ActivationRefusal::MissingHeldOutResidual
        | ActivationRefusal::HeldOutResidualExceedsPolicy { .. }
        | ActivationRefusal::IncompleteCostModel { .. }) => {
            panic!("wrong refusal: {other}", other = other.message())
        }
    }
    assert!(refusal.message().contains('b'));

    let disjoint = evidence(&["c", "d"]);
    assert!(check_evidence_disjoint(&training, &disjoint).is_ok());
}

/// An activation under a different policy version than the result's
/// recorded one is refused, even when every other check would pass.
#[test]
fn policy_version_mismatch_refuses() {
    let training = evidence(&["t-1", "t-2"]);
    let validation = evidence(&["v-1"]);
    let (actor, _, verdict) = passing_parts();
    let other_policy = policy("ap-v2", 100_000);
    let rec = recorded(
        "ap-v1",
        &training,
        &validation,
        Some(Credits::from_micros(0)),
        None,
    );
    let refusal = check_activation(
        &request(&actor, &other_policy, &training, &validation, &verdict),
        &rec,
    )
    .unwrap_err();
    match &refusal {
        ActivationRefusal::PolicyVersionMismatch {
            result_version,
            activation_version,
        } => {
            assert_eq!(result_version, "ap-v1");
            assert_eq!(activation_version, "ap-v2");
        }
        other @ (ActivationRefusal::EvidenceMismatch { .. }
        | ActivationRefusal::OverlappingEvidence { .. }
        | ActivationRefusal::Contaminated { .. }
        | ActivationRefusal::IllConditioned { .. }
        | ActivationRefusal::MissingHeldOutResidual
        | ActivationRefusal::HeldOutResidualExceedsPolicy { .. }
        | ActivationRefusal::IncompleteCostModel { .. }) => {
            panic!("wrong refusal: {other}", other = other.message())
        }
    }
}

/// Presented sets that do not reproduce the recorded digests are refused
/// on both roles: activation judges the recorded evidence, not substitutes.
#[test]
fn substitute_evidence_sets_are_refused() {
    let training = evidence(&["t-1", "t-2"]);
    let validation = evidence(&["v-1"]);
    let (actor, test_policy, verdict) = passing_parts();
    let rec = recorded(
        "ap-v1",
        &training,
        &validation,
        Some(Credits::from_micros(0)),
        None,
    );
    let wrong_training = evidence(&["t-1", "t-X"]);
    let refusal = check_activation(
        &request(&actor, &test_policy, &wrong_training, &validation, &verdict),
        &rec,
    )
    .unwrap_err();
    assert!(
        matches!(
            refusal,
            ActivationRefusal::EvidenceMismatch {
                role: EvidenceRole::Fitting
            }
        ),
        "wrong refusal: {refusal}",
        refusal = refusal.message()
    );
    let wrong_validation = evidence(&["v-X"]);
    let refusal = check_activation(
        &request(&actor, &test_policy, &training, &wrong_validation, &verdict),
        &rec,
    )
    .unwrap_err();
    assert!(
        matches!(
            refusal,
            ActivationRefusal::EvidenceMismatch {
                role: EvidenceRole::Validation
            }
        ),
        "wrong refusal: {refusal}",
        refusal = refusal.message()
    );
}

/// A held-out residual within the policy bound passes every rule.
#[test]
fn held_out_residual_within_policy_passes() {
    let training = evidence(&["t-1", "t-2"]);
    let validation = evidence(&["v-1"]);
    let (actor, test_policy, verdict) = passing_parts();
    let rec = recorded(
        "ap-v1",
        &training,
        &validation,
        Some(Credits::from_micros(7_000)),
        Some(ConditionNumber::from_micros(3_500_000)),
    );
    assert!(
        check_activation(
            &request(&actor, &test_policy, &training, &validation, &verdict),
            &rec
        )
        .is_ok()
    );
}

/// A held-out residual above the policy maximum refuses with that reason,
/// naming the residual, the bound and the policy version.
#[test]
fn held_out_residual_exceeding_policy_refuses() {
    let training = evidence(&["t-1", "t-2"]);
    let validation = evidence(&["v-1"]);
    let (actor, _, verdict) = passing_parts();
    let strict = policy("ap-v1", 1_000);
    let rec = recorded(
        "ap-v1",
        &training,
        &validation,
        Some(Credits::from_micros(7_000)),
        None,
    );
    let refusal = check_activation(
        &request(&actor, &strict, &training, &validation, &verdict),
        &rec,
    )
    .unwrap_err();
    match &refusal {
        ActivationRefusal::HeldOutResidualExceedsPolicy {
            residual,
            maximum,
            policy_version,
        } => {
            assert_eq!(residual.micros(), 7_000);
            assert_eq!(maximum.micros(), 1_000);
            assert_eq!(policy_version, "ap-v1");
        }
        other @ (ActivationRefusal::PolicyVersionMismatch { .. }
        | ActivationRefusal::EvidenceMismatch { .. }
        | ActivationRefusal::OverlappingEvidence { .. }
        | ActivationRefusal::Contaminated { .. }
        | ActivationRefusal::IllConditioned { .. }
        | ActivationRefusal::MissingHeldOutResidual
        | ActivationRefusal::IncompleteCostModel { .. }) => {
            panic!("wrong refusal: {other}", other = other.message())
        }
    }
    let message = refusal.message();
    assert!(message.contains("7000"));
    assert!(message.contains("1000"));
    assert!(message.contains("ap-v1"));
}

/// A result with no recorded held-out residual cannot be activated: there
/// is nothing to judge against the policy.
#[test]
fn missing_held_out_residual_refuses() {
    let training = evidence(&["t-1", "t-2"]);
    let validation = evidence(&["v-1"]);
    let (actor, test_policy, verdict) = passing_parts();
    let rec = recorded("ap-v1", &training, &validation, None, None);
    let refusal = check_activation(
        &request(&actor, &test_policy, &training, &validation, &verdict),
        &rec,
    )
    .unwrap_err();
    assert!(
        matches!(refusal, ActivationRefusal::MissingHeldOutResidual),
        "wrong refusal: {refusal}",
        refusal = refusal.message()
    );
}

fn meter_point(at_nanos: i64, ppm: i32) -> ContaminationMeterPoint {
    ContaminationMeterPoint::new(
        ts(at_nanos),
        QuotaUsed::new(QuotaFractionPpm::new(ppm).unwrap()),
    )
}

fn contaminated_verdict() -> ContaminationVerdict {
    let pre = vec![meter_point(0, 100_000), meter_point(500, 150_000)];
    let post: Vec<ContaminationMeterPoint> = Vec::new();
    let markers: Vec<ContaminationMarkerPoint> = Vec::new();
    let inputs = ContaminationInputs {
        experiment_account: "work-a",
        baseline_plateau_started_at: ts(0),
        started_at: ts(1_000),
        ended_at: Some(ts(2_000)),
        evaluated_at: ts(3_000),
        pre_burn_series: &pre,
        post_series: &post,
        controlled_meter_start: QuotaUsed::new(QuotaFractionPpm::new(100_000).unwrap()),
        controlled_meter_end: QuotaUsed::new(QuotaFractionPpm::new(100_000).unwrap()),
        local_credits_delta: Credits::from_micros(5_000_000),
        markers: &markers,
    };
    evaluate_contamination(
        &inputs,
        &ContaminationThresholds::conservative_default(),
    )
}

/// A contaminated candidate cannot be activated even with a zero residual
/// and a generous bound: soundness comes before the numbers.
#[test]
fn contaminated_candidate_refused_regardless_of_residuals() {
    let verdict = contaminated_verdict();
    assert!(verdict.is_contaminated());
    let training = evidence(&["t-1", "t-2"]);
    let validation = evidence(&["v-1"]);
    let (actor, test_policy, _) = passing_parts();
    let rec = recorded(
        "ap-v1",
        &training,
        &validation,
        Some(Credits::from_micros(0)),
        None,
    );
    let refusal = check_activation(
        &request(&actor, &test_policy, &training, &validation, &verdict),
        &rec,
    )
    .unwrap_err();
    match &refusal {
        ActivationRefusal::Contaminated { mark } => {
            assert!(mark.contains("pre_burn_idle_movement"), "mark: {mark}");
        }
        other @ (ActivationRefusal::PolicyVersionMismatch { .. }
        | ActivationRefusal::EvidenceMismatch { .. }
        | ActivationRefusal::OverlappingEvidence { .. }
        | ActivationRefusal::IllConditioned { .. }
        | ActivationRefusal::MissingHeldOutResidual
        | ActivationRefusal::HeldOutResidualExceedsPolicy { .. }
        | ActivationRefusal::IncompleteCostModel { .. }) => {
            panic!("wrong refusal: {other}", other = other.message())
        }
    }
}

/// An ill-conditioned candidate cannot be activated even with a zero
/// residual: the coefficients cannot be trusted whatever they predict.
#[test]
fn ill_conditioned_candidate_refused_regardless_of_residuals() {
    let training = evidence(&["t-1", "t-2"]);
    let validation = evidence(&["v-1"]);
    let (actor, test_policy, verdict) = passing_parts();
    let rec = recorded(
        "ap-v1",
        &training,
        &validation,
        Some(Credits::from_micros(0)),
        Some(ConditionNumber::from_micros(100_000_000)),
    );
    let refusal = check_activation(
        &request(&actor, &test_policy, &training, &validation, &verdict),
        &rec,
    )
    .unwrap_err();
    match &refusal {
        ActivationRefusal::IllConditioned {
            condition_number,
            threshold,
        } => {
            assert_eq!(condition_number.micros(), 100_000_000);
            assert_eq!(threshold.micros(), 30_000_000);
        }
        other @ (ActivationRefusal::PolicyVersionMismatch { .. }
        | ActivationRefusal::EvidenceMismatch { .. }
        | ActivationRefusal::OverlappingEvidence { .. }
        | ActivationRefusal::Contaminated { .. }
        | ActivationRefusal::MissingHeldOutResidual
        | ActivationRefusal::HeldOutResidualExceedsPolicy { .. }
        | ActivationRefusal::IncompleteCostModel { .. }) => {
            panic!("wrong refusal: {other}", other = other.message())
        }
    }
}

fn fit_observation(
    id: &str,
    at_nanos: i64,
    quota_ppm: i64,
    cumulative_micros: i64,
) -> FitObservation {
    FitObservation::new(
        EvidenceId::new(id),
        ts(at_nanos),
        quota_ppm,
        10,
        QuantizationSemantics::Exact,
        Credits::from_micros(cumulative_micros),
    )
}

/// A validation series following the fitted slope validates cleanly: the
/// diagnostic is zero when the coefficient predicts held-out movement.
#[test]
fn held_out_residual_of_a_matching_series_is_zero() {
    let fitted = CreditsPerPercentagePoint::from_micros_per_point(500_000);
    let validation: Vec<FitObservation> = (0..6)
        .map(|i| {
            fit_observation(
                &format!("match-{i}"),
                1_000_000_000 + i * 60_000_000_000,
                100_000 + 2 * i,
                i * 1_000_000,
            )
        })
        .collect();
    assert_eq!(held_out_residual(fitted, &validation).unwrap().micros(), 0);
}

/// A validation series on a four-times steeper slope reports a large
/// diagnostic: 15 ppm mean at 500,000 micros per point is 7,500,000
/// micros, which pins the scale the integration case below relies on.
#[test]
fn held_out_residual_of_a_divergent_series_is_large() {
    let fitted = CreditsPerPercentagePoint::from_micros_per_point(500_000);
    let validation: Vec<FitObservation> = (0..6)
        .map(|i| {
            fit_observation(
                &format!("diverge-{i}"),
                1_000_000_000 + i * 60_000_000_000,
                100_000 + 8 * i,
                i * 1_000_000,
            )
        })
        .collect();
    assert_eq!(
        held_out_residual(fitted, &validation).unwrap().micros(),
        7_500_000
    );
}

/// Fewer than two held-out observations cannot validate anything: one
/// point is its own baseline with zero residual under every slope.
#[test]
fn held_out_residual_needs_two_observations() {
    let fitted = CreditsPerPercentagePoint::from_micros_per_point(500_000);
    assert!(held_out_residual(fitted, &vec![]).is_err());
    assert!(
        held_out_residual(
            fitted,
            &vec![fit_observation("solo", 1_000_000_000, 100_000, 0)]
        )
        .is_err()
    );
}

/// An empty policy version or actor name is refused at construction: both
/// are recorded on the event, so neither may be blank.
#[test]
fn empty_policy_version_or_actor_is_refused() {
    assert!(
        ActivationPolicy::new("", Credits::from_micros(1), ConditionNumber::from_micros(1))
            .is_err()
    );
    assert!(ActivationActor::new("").is_err());
    assert!(
        ActivationPolicy::new(
            "ap-v1",
            Credits::from_micros(1),
            ConditionNumber::from_micros(1)
        )
        .is_ok()
    );
    assert!(ActivationActor::new("operator").is_ok());
}
