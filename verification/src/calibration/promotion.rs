//! Promoting a fitted candidate into a recorded result.
//!
//! A result carries what a candidate does not: a residual over evidence held out of
//! the fit, the fingerprints of both sets of evidence, and the method and build it came
//! from. Promotion refuses rather than approximates wherever those would not be the
//! candidate's own. It never activates.

use crate::calibration::activation::{
    check_evidence_disjoint, held_out, held_out_residual, is_measurable,
    law_disjoint_means_nothing_shared, law_ordinary_readings_are_measurable, lemma_filter_members,
    measurable, overlap, RefusalView,
};
use crate::calibration::fitter::{FitObservation, FitResult};
use crate::calibration::usage::{
    law_spend_that_is_small_fits, observations_with_cumulative_credits, paired, total_fits, Spend,
};
use crate::domain::{Credits, CreditsPerPercentagePoint, UtcTimestamp};
use crate::error::{Error, ErrorView};
use crate::ids::{CandidateId, CostModelId, ProviderKey, WindowCalibrationId, WindowSemanticKey};
use crate::records::{
    digest_of, CalibrationExperiment, EvidenceDigest, EvidenceFingerprint, ExcludedSample,
    StoredFitObservation, WindowCalibration, WindowCalibrationCandidate,
};
use crate::sets::{join_texts, joined, texts, TextSet};
use crate::text::{
    decimal, decimal_text, hex16, hexadecimal, same_text, signed_decimal, signed_decimal_text,
};
use vstd::prelude::*;
use vstd::string::*;

verus! {

/// The validation procedure a promoted result records.
pub const PROMOTION_VALIDATION_METHOD: &'static str = "held-out-interval-residual";

/// The version of that procedure.
pub const PROMOTION_VALIDATION_VERSION: &'static str = "v1";

/// The activation policy version a promoted result is recorded under by default.
pub const PROMOTION_ACTIVATION_POLICY_VERSION: &'static str = "promote-v1";

/// What a promotion was asked to record.
#[derive(Debug, Clone, PartialEq, Eq)]
pub struct CandidatePromotion<'a> {
    pub candidate_id: &'a CandidateId,
    pub training: &'a TextSet,
    pub validation: &'a TextSet,
    pub activation_policy_version: &'a str,
}

/// What the ledger holds for a promotion.
#[derive(Debug)]
pub struct PromotionEvidence {
    /// The candidate, where there is one of that name.
    pub candidate: Option<WindowCalibrationCandidate>,
    /// Whether a joint candidate goes by that name.
    pub joint_candidate: bool,
    /// The identity the promoted result takes.
    pub result_id: WindowCalibrationId,
    /// Whether a result of that identity is recorded already.
    pub already_promoted: bool,
    /// The experiment behind the candidate.
    pub experiment: Option<CalibrationExperiment>,
    /// The cost model in force for the experiment.
    pub cost_model_id: Option<CostModelId>,
    /// The fit that the evidence still in the ledger gives.
    pub refit: Result<FitResult, Error>,
    /// The readings found for the validation evidence.
    pub validation_readings: Vec<StoredFitObservation>,
    /// The credits spent from the start of the experiment until the last of those
    /// readings: by the account of its controlled run, where it has one.
    pub series: Result<Vec<Spend>, Error>,
    pub now: UtcTimestamp,
    pub aub_version: String,
    pub source_revision: String,
}

/// A message about promoting a candidate: its name, then what is wrong.
pub open spec fn about(candidate: Seq<char>, what: Seq<char>) -> Seq<char> {
    "promote '"@ + candidate + "': "@ + what
}

pub(crate) fn about_text(candidate: &str, what: &str) -> (message: String)
    ensures
        message@ == about(candidate@, what@),
{
    let mut message: String = "promote '".to_owned();
    message.append(candidate);
    message.append("': ");
    message.append(what);
    message
}

/// The refusal where no candidate goes by a name. A joint candidate is another refusal
/// than a typo: it exists, and has no scalar result to promote it into.
pub open spec fn missing_candidate(id: Seq<char>, joint: bool) -> ErrorView {
    if joint {
        ErrorView::Usage(
            about(
                id,
                "a joint candidate has no scalar result shape yet, because a result records one coefficient and a joint fit has one per token kind; reducing them through a cost model would reintroduce the assumption the joint fit exists to test. Tracked by aub-multivariate-result-shape-2hvt"@,
            ),
        )
    } else {
        ErrorView::Usage(
            "no calibration candidate '"@ + id + "'; fit one with `aub calibrate fit`"@,
        )
    }
}

/// The refusal where no candidate goes by a name.
pub fn missing_candidate_error(id: &CandidateId, joint: bool) -> (error: Error)
    ensures
        error@ == missing_candidate(id@, joint),
{
    if joint {
        Error::Usage(
            about_text(
                id.as_str(),
                "a joint candidate has no scalar result shape yet, because a result records one coefficient and a joint fit has one per token kind; reducing them through a cost model would reintroduce the assumption the joint fit exists to test. Tracked by aub-multivariate-result-shape-2hvt",
            ),
        )
    } else {
        let mut message: String = "no calibration candidate '".to_owned();
        message.append(id.as_str());
        message.append("'; fit one with `aub calibrate fit`");
        Error::Usage(message)
    }
}

/// Whether a digest is not that of a set.
pub open spec fn digest_differs(digest: EvidenceDigest, set: Seq<Seq<char>>) -> bool {
    digest.count != set.len() || digest.digest != digest_of(set)
}

/// The evidence of a set that no reading was found for, in order.
pub open spec fn unfound(set: Seq<Seq<char>>, readings: Seq<StoredFitObservation>) -> Seq<Seq<char>> {
    set.filter(
        |id: Seq<char>|
            !exists|i: int|
                0 <= i < readings.len() && (#[trigger] readings[i]).evidence_id@ == id,
    )
}

/// Why the evidence named for a promotion is refused: both sets must name some, and
/// they must be disjoint.
pub open spec fn evidence_refusal(
    asked: Seq<char>,
    training: Seq<Seq<char>>,
    validation: Seq<Seq<char>>,
) -> Option<ErrorView> {
    if training.len() == 0 {
        Some(
            ErrorView::Usage(
                about(
                    asked,
                    "--training names no evidence; a result records the evidence its coefficient was fitted from"@,
                ),
            ),
        )
    } else if validation.len() == 0 {
        Some(
            ErrorView::Usage(
                about(
                    asked,
                    "--validation names no evidence; there is no held-out residual to compute and activation refuses a result without one"@,
                ),
            ),
        )
    } else if overlap(training, validation).len() > 0 {
        Some(
            ErrorView::Usage(
                about(
                    asked,
                    (RefusalView::OverlappingEvidence {
                        overlap: overlap(training, validation),
                    }).text(),
                ),
            ),
        )
    } else {
        None
    }
}

/// Checks the evidence named for a promotion.
pub fn check_promotion_evidence(promotion: &CandidatePromotion<'_>) -> (verdict: Result<(), Error>)
    ensures
        match verdict {
            Ok(()) => evidence_refusal(
                promotion.candidate_id@,
                promotion.training@,
                promotion.validation@,
            ) is None,
            Err(error) => evidence_refusal(
                promotion.candidate_id@,
                promotion.training@,
                promotion.validation@,
            ) == Some(error@),
        },
{
    let asked: &str = promotion.candidate_id.as_str();
    if promotion.training.is_empty() {
        return Err(
            Error::Usage(
                about_text(
                    asked,
                    "--training names no evidence; a result records the evidence its coefficient was fitted from",
                ),
            ),
        );
    }
    if promotion.validation.is_empty() {
        return Err(
            Error::Usage(
                about_text(
                    asked,
                    "--validation names no evidence; there is no held-out residual to compute and activation refuses a result without one",
                ),
            ),
        );
    }
    match check_evidence_disjoint(promotion.training, promotion.validation) {
        Ok(()) => Ok(()),
        Err(refusal) => {
            let message: String = refusal.message();
            Err(Error::Usage(about_text(asked, message.as_str())))
        },
    }
}

/// What is said where the training set is not the one a candidate was fitted from.
pub open spec fn training_differs(training: Seq<Seq<char>>, inputs: EvidenceDigest) -> Seq<char> {
    "--training names "@ + decimal(training.len()) + " evidence ids digesting to "@ + hexadecimal(
        digest_of(training) as nat,
        16,
    ) + ", and the candidate was fitted from "@ + decimal(inputs.count as nat) + " digesting to "@
        + hexadecimal(inputs.digest as nat, 16)
}

/// What is said where a candidate was promoted before.
pub open spec fn promoted_before(result_id: Seq<char>) -> Seq<char> {
    "already promoted as result '"@ + result_id
        + "'; a result is immutable, and a second row would be a second identity for one fit"@
}

/// Checks that the training set is the one a candidate was fitted from, and that the
/// candidate was not promoted before.
pub fn check_promotion_candidate(
    asked: &str,
    training: &TextSet,
    inputs: EvidenceDigest,
    recorded_as: Option<&WindowCalibrationId>,
) -> (verdict: Result<(), Error>)
    ensures
        match verdict {
            Ok(()) => !digest_differs(inputs, training@) && recorded_as is None,
            Err(error) => error@ == ErrorView::Usage(
                about(
                    asked@,
                    if digest_differs(inputs, training@) {
                        training_differs(training@, inputs)
                    } else {
                        promoted_before(recorded_as->0@)
                    },
                ),
            ) && (digest_differs(inputs, training@) || recorded_as is Some),
        },
{
    let digest: EvidenceDigest = EvidenceDigest::from_inputs(training);
    if digest != inputs {
        let mut what: String = "--training names ".to_owned();
        what.append(decimal_text(digest.count() as u128).as_str());
        what.append(" evidence ids digesting to ");
        what.append(hex16(digest.digest()).as_str());
        what.append(", and the candidate was fitted from ");
        what.append(decimal_text(inputs.count() as u128).as_str());
        what.append(" digesting to ");
        what.append(hex16(inputs.digest()).as_str());
        return Err(Error::Usage(about_text(asked, what.as_str())));
    }
    match recorded_as {
        Some(result_id) => {
            let mut what: String = "already promoted as result '".to_owned();
            what.append(result_id.as_str());
            what.append(
                "'; a result is immutable, and a second row would be a second identity for one fit",
            );
            Err(Error::Usage(about_text(asked, what.as_str())))
        },
        None => Ok(()),
    }
}

/// What is said where validation evidence is not in the ledger.
pub open spec fn not_held(
    provider: Seq<char>,
    window: Seq<char>,
    missing: Seq<Seq<char>>,
) -> Seq<char> {
    "the ledger holds no observation of provider '"@ + provider + "' window '"@ + window
        + "' for validation evidence ["@ + joined(missing, ", "@) + "]"@
}

/// Checks that a reading was found for all validation evidence.
pub fn check_validation_held(
    candidate: &str,
    provider: &ProviderKey,
    window: &WindowSemanticKey,
    validation: &TextSet,
    readings: &Vec<StoredFitObservation>,
) -> (verdict: Result<(), Error>)
    ensures
        match verdict {
            Ok(()) => unfound(validation@, readings@).len() == 0,
            Err(error) => unfound(validation@, readings@).len() > 0 && error@
                == ErrorView::InsufficientEvidence(
                about(
                    candidate@,
                    not_held(provider@, window@, unfound(validation@, readings@)),
                ),
            ),
        },
{
    let missing: Vec<String> = evidence_not_found(validation, readings);
    assert(texts(missing@).len() == missing@.len());
    if missing.len() > 0 {
        let mut what: String = "the ledger holds no observation of provider '".to_owned();
        what.append(provider.as_str());
        what.append("' window '");
        what.append(window.as_str());
        what.append("' for validation evidence [");
        what.append(join_texts(&missing, ", ").as_str());
        what.append("]");
        return Err(Error::InsufficientEvidence(about_text(candidate, what.as_str())));
    }
    Ok(())
}

/// Whether a fit of the evidence still in the ledger is not the recorded candidate's.
pub open spec fn not_reproduced(
    candidate: WindowCalibrationCandidate,
    refit: WindowCalibrationCandidate,
) -> bool {
    refit.fitted != candidate.fitted || refit.inputs != candidate.inputs
}

/// What is said where a candidate no longer reproduces.
pub open spec fn no_longer_fits(
    candidate: WindowCalibrationCandidate,
    refit: WindowCalibrationCandidate,
) -> ErrorView {
    ErrorView::InsufficientEvidence(
        about(
            candidate.id@,
            "the recorded candidate fits "@ + signed_decimal(candidate.fitted.micros as int)
                + " micros/point over "@ + decimal(candidate.inputs.count as nat)
                + " observations, and the evidence in the ledger now fits "@ + signed_decimal(
                refit.fitted.micros as int,
            ) + " over "@ + decimal(refit.inputs.count as nat),
        ),
    )
}

/// Checks that a candidate still reproduces from the evidence in the ledger.
pub fn check_reproduced(
    candidate: &WindowCalibrationCandidate,
    refit: &WindowCalibrationCandidate,
) -> (verdict: Result<(), Error>)
    ensures
        match verdict {
            Ok(()) => !not_reproduced(*candidate, *refit),
            Err(error) => not_reproduced(*candidate, *refit) && error@ == no_longer_fits(
                *candidate,
                *refit,
            ),
        },
{
    if refit.fitted != candidate.fitted || refit.inputs != candidate.inputs {
        let what: String = no_longer_fits_text(candidate, refit);
        return Err(
            Error::InsufficientEvidence(about_text(candidate.id.as_str(), what.as_str())),
        );
    }
    Ok(())
}

/// Why a promotion is refused, in the order of the checks; nothing where it goes
/// through.
pub open spec fn promotion_error(
    promotion: CandidatePromotion,
    evidence: PromotionEvidence,
) -> Option<ErrorView> {
    let asked = promotion.candidate_id@;
    let training = promotion.training@;
    let validation = promotion.validation@;
    if evidence.candidate is None {
        Some(missing_candidate(asked, evidence.joint_candidate))
    } else if evidence_refusal(asked, training, validation) is Some {
        evidence_refusal(asked, training, validation)
    } else {
        let candidate = evidence.candidate->0;
        if digest_differs(candidate.inputs, training) {
            Some(ErrorView::Usage(about(asked, training_differs(training, candidate.inputs))))
        } else if evidence.already_promoted {
            Some(ErrorView::Usage(about(asked, promoted_before(evidence.result_id@))))
        } else if evidence.experiment is None {
            Some(
                ErrorView::InsufficientEvidence(
                    "no calibration experiment '"@ + candidate.experiment@
                        + "' behind candidate '"@ + candidate.id@ + "'"@,
                ),
            )
        } else {
            let experiment = evidence.experiment->0;
            if evidence.cost_model_id is None {
                Some(
                    ErrorView::InsufficientEvidence(
                        "no active cost model found for experiment '"@ + experiment.id@ + "'"@,
                    ),
                )
            } else {
                match evidence.refit {
                    Err(error) => Some(error@),
                    Ok(refit) => if not_reproduced(candidate, refit.candidate) {
                        Some(no_longer_fits(candidate, refit.candidate))
                    } else if unfound(validation, evidence.validation_readings@).len() > 0 {
                        Some(
                            ErrorView::InsufficientEvidence(
                                about(
                                    candidate.id@,
                                    not_held(
                                        experiment.provider@,
                                        experiment.window_semantic_key@,
                                        unfound(validation, evidence.validation_readings@),
                                    ),
                                ),
                            ),
                        )
                    } else {
                        match evidence.series {
                            Err(error) => Some(error@),
                            Ok(_) => if evidence.validation_readings@.len() < 2 {
                                Some(too_few_readings(evidence.validation_readings@.len()))
                            } else {
                                None
                            },
                        }
                    },
                }
            }
        }
    }
}

/// Whether a result is what a promotion records.
pub open spec fn promoted(
    result: WindowCalibration,
    promotion: CandidatePromotion,
    evidence: PromotionEvidence,
) -> bool {
    let candidate = evidence.candidate->0;
    let experiment = evidence.experiment->0;
    let refit = evidence.refit->Ok_0;
    &&& result.id@ == evidence.result_id@
    &&& result.provider@ == experiment.provider@
    &&& result.plan_tier@ == experiment.plan_tier@
    &&& result.window_semantic_key@ == experiment.window_semantic_key@
    &&& result.meter_semantics_id@ == experiment.meter_semantics_id@
    &&& result.billing_semantics_id@ == experiment.billing_semantics_id@
    &&& result.cost_model_id@ == evidence.cost_model_id->0@
    &&& result.fitted == candidate.fitted
    &&& result.equivalent_full_window_capacity == candidate.equivalent_full_window_capacity
    &&& result.fit_residual == candidate.fit_residual
    &&& result.uncertainty == candidate.uncertainty
    &&& result.lag_estimate is None
    &&& result.lag_handling@ == refit.lag_handling@
    &&& result.sample_count == candidate.sample_count
    &&& result.fit_timestamp == candidate.knowledge_time
    &&& result.inputs == candidate.inputs
    &&& result.fitting_evidence == EvidenceFingerprint::of(promotion.training@)
    &&& result.validation_evidence == EvidenceFingerprint::of(promotion.validation@)
    &&& result.validation_method@ == PROMOTION_VALIDATION_METHOD@
    &&& result.validation_version@ == PROMOTION_VALIDATION_VERSION@
    &&& result.out_of_sample_residual is Some
    &&& residual_over(
        candidate.fitted,
        evidence.validation_readings@,
        evidence.series->Ok_0@,
        result.out_of_sample_residual->0,
    )
    &&& result.statistical_method@ == refit.statistical_method@
    &&& result.statistical_parameters@ == refit.statistical_parameters@
    &&& result.condition_number is None
    &&& result.observation_coverage_requirement@ == "held-out validation over "@ + decimal(
        evidence.validation_readings@.len(),
    ) + " observations disjoint from the fit"@
    &&& result.settling_policy@ == experiment.settlement_policy.version_text()
    &&& result.excluded_samples@ == refit.excluded_samples@
    &&& result.activation_policy_version@ == promotion.activation_policy_version@
    &&& result.aub_version@ == evidence.aub_version@
    &&& result.source_revision@ == evidence.source_revision@
    &&& result.validity == candidate.validity
    &&& result.knowledge_time == evidence.now
}

fn is_found(id: &str, readings: &Vec<StoredFitObservation>) -> (found: bool)
    ensures
        found == exists|i: int|
            0 <= i < readings@.len() && (#[trigger] readings@[i]).evidence_id@ == id@,
{
    let mut i: usize = 0;
    while i < readings.len()
        invariant
            i <= readings@.len(),
            forall|k: int| 0 <= k < i ==> (#[trigger] readings@[k]).evidence_id@ != id@,
        decreases readings@.len() - i,
    {
        if same_text(readings[i].evidence_id.as_str(), id) {
            assert(readings@[i as int].evidence_id@ == id@);
            return true;
        }
        i = i + 1;
    }
    false
}

fn evidence_not_found(set: &TextSet, readings: &Vec<StoredFitObservation>) -> (missing: Vec<String>)
    ensures
        texts(missing@) == unfound(set@, readings@),
{
    let ghost absent = |id: Seq<char>|
        !exists|i: int| 0 <= i < readings@.len() && (#[trigger] readings@[i]).evidence_id@ == id;
    let items: &Vec<String> = set.items();
    let mut missing: Vec<String> = Vec::new();
    let mut i: usize = 0;
    proof {
        reveal(Seq::filter);
        assert(texts(missing@) =~= texts(items@).take(0).filter(absent));
    }
    while i < items.len()
        invariant
            i <= items@.len(),
            absent == (|id: Seq<char>|
                !exists|i: int|
                    0 <= i < readings@.len() && (#[trigger] readings@[i]).evidence_id@ == id),
            texts(missing@) == texts(items@).take(i as int).filter(absent),
        decreases items@.len() - i,
    {
        proof {
            reveal(Seq::filter);
            let next = texts(items@).take(i + 1);
            assert(next.drop_last() =~= texts(items@).take(i as int));
            assert(next.last() == items@[i as int]@);
        }
        let ghost before = missing@;
        if !is_found(items[i].as_str(), readings) {
            missing.push(items[i].clone());
            assert(texts(missing@) =~= texts(before).push(items@[i as int]@));
        }
        i = i + 1;
    }
    assert(texts(items@).take(items@.len() as int) =~= texts(items@));
    missing
}

fn no_longer_fits_text(
    candidate: &WindowCalibrationCandidate,
    refit: &WindowCalibrationCandidate,
) -> (what: String)
    ensures
        what@ == "the recorded candidate fits "@ + signed_decimal(candidate.fitted.micros as int)
            + " micros/point over "@ + decimal(candidate.inputs.count as nat)
            + " observations, and the evidence in the ledger now fits "@ + signed_decimal(
            refit.fitted.micros as int,
        ) + " over "@ + decimal(refit.inputs.count as nat),
{
    let mut what: String = "the recorded candidate fits ".to_owned();
    what.append(signed_decimal_text(candidate.fitted.micros_per_point()).as_str());
    what.append(" micros/point over ");
    what.append(decimal_text(candidate.inputs.count() as u128).as_str());
    what.append(" observations, and the evidence in the ledger now fits ");
    what.append(signed_decimal_text(refit.fitted.micros_per_point()).as_str());
    what.append(" over ");
    what.append(decimal_text(refit.inputs.count() as u128).as_str());
    what
}

fn copied_samples(samples: &Vec<ExcludedSample>) -> (copy: Vec<ExcludedSample>)
    ensures
        copy@ == samples@,
{
    let mut copy: Vec<ExcludedSample> = Vec::new();
    let mut i: usize = 0;
    while i < samples.len()
        invariant
            i <= samples@.len(),
            copy@ == samples@.take(i as int),
        decreases samples@.len() - i,
    {
        copy.push(samples[i].clone());
        assert(copy@ =~= samples@.take(i + 1));
        i = i + 1;
    }
    assert(samples@.take(samples@.len() as int) =~= samples@);
    copy
}

pub(crate) fn copied_error(error: &Error) -> (copy: Error)
    ensures
        copy@ == error@,
{
    match error {
        Error::Internal(message) => Error::Internal(message.clone()),
        Error::Usage(message) => Error::Usage(message.clone()),
        Error::AuthRequired(message) => Error::AuthRequired(message.clone()),
        Error::RemoteUnavailable(message) => Error::RemoteUnavailable(message.clone()),
        Error::Store(message) => Error::Store(message.clone()),
        Error::InsufficientEvidence(message) => Error::InsufficientEvidence(message.clone()),
        Error::IngestIncomplete(message) => Error::IngestIncomplete(message.clone()),
        Error::ThresholdNotMet(message) => Error::ThresholdNotMet(message.clone()),
    }
}

/// Decides a promotion and builds the result it records. It is refused where the
/// training set is not what the candidate was fitted from, where validation overlaps
/// it or is not in the ledger, where the candidate no longer reproduces, and where it
/// was promoted before. The residual that it records is that of the candidate's
/// coefficient over the validation readings. There is no result where a quantity on the
/// way to it is not representable.
pub fn promote_candidate(
    promotion: &CandidatePromotion<'_>,
    evidence: &PromotionEvidence,
) -> (result: Option<Result<WindowCalibration, Error>>)
    ensures
        match result {
            Some(Ok(calibration)) => {
                &&& promotion_error(*promotion, *evidence) is None
                &&& promoted(calibration, *promotion, *evidence)
            },
            Some(Err(error)) => promotion_error(*promotion, *evidence) == Some(error@),
            None => {
                &&& promotion_error(*promotion, *evidence) is None
                &&& residual_not_representable(
                    evidence.validation_readings@,
                    evidence.series->Ok_0@,
                )
            },
        },
{
    let candidate: &WindowCalibrationCandidate = match &evidence.candidate {
        Some(candidate) => candidate,
        None => {
            return Some(
                Err(missing_candidate_error(promotion.candidate_id, evidence.joint_candidate)),
            );
        },
    };
    match check_promotion_evidence(promotion) {
        Ok(()) => {},
        Err(error) => {
            return Some(Err(error));
        },
    }
    let recorded_as: Option<&WindowCalibrationId> = if evidence.already_promoted {
        Some(&evidence.result_id)
    } else {
        None
    };
    match check_promotion_candidate(
        promotion.candidate_id.as_str(),
        promotion.training,
        candidate.inputs,
        recorded_as,
    ) {
        Ok(()) => {},
        Err(error) => {
            return Some(Err(error));
        },
    }
    let experiment: &CalibrationExperiment = match &evidence.experiment {
        Some(experiment) => experiment,
        None => {
            let mut message: String = "no calibration experiment '".to_owned();
            message.append(candidate.experiment.as_str());
            message.append("' behind candidate '");
            message.append(candidate.id.as_str());
            message.append("'");
            return Some(Err(Error::InsufficientEvidence(message)));
        },
    };
    let cost_model_id: &CostModelId = match &evidence.cost_model_id {
        Some(id) => id,
        None => {
            let mut message: String = "no active cost model found for experiment '".to_owned();
            message.append(experiment.id.as_str());
            message.append("'");
            return Some(Err(Error::InsufficientEvidence(message)));
        },
    };
    let refit: &FitResult = match &evidence.refit {
        Ok(refit) => refit,
        Err(error) => {
            return Some(Err(copied_error(error)));
        },
    };
    match check_reproduced(candidate, &refit.candidate) {
        Ok(()) => {},
        Err(error) => {
            return Some(Err(error));
        },
    }
    match check_validation_held(
        candidate.id.as_str(),
        &experiment.provider,
        &experiment.window_semantic_key,
        promotion.validation,
        &evidence.validation_readings,
    ) {
        Ok(()) => {},
        Err(error) => {
            return Some(Err(error));
        },
    }
    let series: &Vec<Spend> = match &evidence.series {
        Ok(series) => series,
        Err(error) => {
            return Some(Err(copied_error(error)));
        },
    };
    let residual: Credits = match validation_residual(
        candidate.fitted,
        &evidence.validation_readings,
        series,
    ) {
        Some(Ok(residual)) => residual,
        Some(Err(error)) => {
            return Some(Err(error));
        },
        None => {
            return None;
        },
    };
    let mut coverage: String = "held-out validation over ".to_owned();
    coverage.append(decimal_text(evidence.validation_readings.len() as u128).as_str());
    coverage.append(" observations disjoint from the fit");
    Some(
        Ok(
            WindowCalibration {
                id: evidence.result_id.clone(),
                provider: experiment.provider.clone(),
                plan_tier: experiment.plan_tier.clone(),
                window_semantic_key: experiment.window_semantic_key.clone(),
                meter_semantics_id: experiment.meter_semantics_id.clone(),
                billing_semantics_id: experiment.billing_semantics_id.clone(),
                cost_model_id: cost_model_id.clone(),
                fitted: candidate.fitted,
                equivalent_full_window_capacity: candidate.equivalent_full_window_capacity,
                fit_residual: candidate.fit_residual,
                uncertainty: candidate.uncertainty,
                lag_estimate: None,
                lag_handling: refit.lag_handling.clone(),
                sample_count: candidate.sample_count,
                fit_timestamp: candidate.knowledge_time,
                inputs: candidate.inputs,
                fitting_evidence: EvidenceFingerprint::from_inputs(promotion.training),
                validation_evidence: EvidenceFingerprint::from_inputs(promotion.validation),
                validation_method: PROMOTION_VALIDATION_METHOD.to_owned(),
                validation_version: PROMOTION_VALIDATION_VERSION.to_owned(),
                out_of_sample_residual: Some(residual),
                statistical_method: refit.statistical_method.clone(),
                statistical_parameters: refit.statistical_parameters.clone(),
                condition_number: None,
                observation_coverage_requirement: coverage,
                settling_policy: experiment.settlement_policy.version().to_owned(),
                excluded_samples: copied_samples(&refit.excluded_samples),
                activation_policy_version: promotion.activation_policy_version.to_owned(),
                aub_version: evidence.aub_version.clone(),
                source_revision: evidence.source_revision.clone(),
                validity: candidate.validity,
                knowledge_time: evidence.now,
            },
        ),
    )
}

/// The latest moment of some readings, or another moment where that is later.
pub open spec fn latest(readings: Seq<StoredFitObservation>, least: UtcTimestamp) -> UtcTimestamp
    decreases readings.len(),
{
    if readings.len() == 0 {
        least
    } else {
        let before = latest(readings.drop_last(), least);
        if readings.last().at.nanos > before.nanos {
            readings.last().at
        } else {
            before
        }
    }
}

/// Until when spend is needed to validate: the validation readings are held out of the
/// fit and may lie past the experiment's own interval.
pub fn validation_until(
    readings: &Vec<StoredFitObservation>,
    experiment: &CalibrationExperiment,
) -> (until: UtcTimestamp)
    ensures
        until == latest(readings@, experiment.validity.end()),
{
    let mut until: UtcTimestamp = experiment.validity.valid_until();
    let mut i: usize = 0;
    assert(readings@.take(0) =~= Seq::empty());
    while i < readings.len()
        invariant
            i <= readings@.len(),
            until == latest(readings@.take(i as int), experiment.validity.end()),
        decreases readings@.len() - i,
    {
        assert(readings@.take(i + 1).drop_last() =~= readings@.take(i as int));
        if readings[i].at.unix_nanos() > until.unix_nanos() {
            until = readings[i].at;
        }
        i = i + 1;
    }
    assert(readings@.take(readings@.len() as int) =~= readings@);
    until
}

/// Whether observations are readings paired with the credits spent up to each.
pub open spec fn all_paired(
    readings: Seq<StoredFitObservation>,
    series: Seq<Spend>,
    observations: Seq<FitObservation>,
) -> bool {
    &&& observations.len() == readings.len()
    &&& forall|i: int|
        0 <= i < readings.len() ==> paired(readings[i], series, #[trigger] observations[i])
}

/// Whether credits are the residual of a coefficient over readings and the spend up to
/// each.
pub open spec fn residual_over(
    fitted: CreditsPerPercentagePoint,
    readings: Seq<StoredFitObservation>,
    series: Seq<Spend>,
    residual: Credits,
) -> bool {
    exists|observations: Seq<FitObservation>| #[trigger]
        all_paired(readings, series, observations) && observations.len() >= 2 && measurable(
            observations,
        ) && residual.micros == held_out(fitted, observations)
}

/// Whether there are readings enough for a residual, and either a running total of spend
/// or a step of the measurement is not representable.
pub open spec fn residual_not_representable(
    readings: Seq<StoredFitObservation>,
    series: Seq<Spend>,
) -> bool {
    &&& readings.len() >= 2
    &&& (exists|i: int|
        0 <= i < readings.len() && !total_fits(series, (#[trigger] readings[i]).at)) || (exists|
        observations: Seq<FitObservation>,
    | #[trigger]
        all_paired(readings, series, observations) && !measurable(observations))
}

/// What is said where there are too few readings for a residual.
pub open spec fn too_few_readings(found: nat) -> ErrorView {
    ErrorView::InsufficientEvidence(
        "held-out validation needs at least 2 observations, found "@ + decimal(found),
    )
}

/// The residual of a coefficient over readings held out of its fit; nothing where a
/// quantity on the way is not representable.
pub fn validation_residual(
    fitted: CreditsPerPercentagePoint,
    readings: &Vec<StoredFitObservation>,
    series: &Vec<Spend>,
) -> (residual: Option<Result<Credits, Error>>)
    ensures
        match residual {
            Some(Ok(credits)) => residual_over(fitted, readings@, series@, credits),
            Some(Err(error)) => readings@.len() < 2 && error@ == too_few_readings(readings@.len()),
            None => residual_not_representable(readings@, series@),
        },
{
    if readings.len() < 2 {
        let mut message: String =
            "held-out validation needs at least 2 observations, found ".to_owned();
        message.append(decimal_text(readings.len() as u128).as_str());
        return Some(Err(Error::InsufficientEvidence(message)));
    }
    let observations: Vec<FitObservation> = match observations_with_cumulative_credits(
        readings,
        series,
    ) {
        Some(observations) => observations,
        None => {
            return None;
        },
    };
    assert(all_paired(readings@, series@, observations@));
    if !is_measurable(&observations) {
        return None;
    }
    Some(held_out_residual(fitted, &observations))
}

/// What a promotion reports of the result it recorded.
#[derive(Debug, Clone, PartialEq, Eq)]
pub struct PromotedCandidate {
    pub result_id: String,
    pub candidate_id: String,
    pub experiment_id: String,
    pub provider: String,
    pub plan_tier: String,
    pub window_semantic_key: String,
    pub fitted_micros_per_point: i64,
    pub fit_residual_micros: i64,
    pub held_out_residual_micros: i64,
    pub validation_observations: u32,
    pub fitting_evidence_digest_hex: String,
    pub validation_evidence_digest_hex: String,
    pub validation_method: String,
    pub validation_version: String,
    pub activation_policy_version: String,
    pub uncertainty_low_micros_per_point: i64,
    pub uncertainty_high_micros_per_point: i64,
}

/// Reports the result that a promotion recorded.
pub fn promoted_summary(
    result: &WindowCalibration,
    candidate: &WindowCalibrationCandidate,
    held_out: Credits,
    validation_observations: usize,
) -> (summary: Result<PromotedCandidate, Error>)
    ensures
        match summary {
            Ok(s) => {
                &&& validation_observations <= u32::MAX
                &&& s.result_id@ == result.id@
                &&& s.candidate_id@ == candidate.id@
                &&& s.experiment_id@ == candidate.experiment@
                &&& s.provider@ == result.provider@
                &&& s.plan_tier@ == result.plan_tier@
                &&& s.window_semantic_key@ == result.window_semantic_key@
                &&& s.fitted_micros_per_point == candidate.fitted.micros
                &&& s.fit_residual_micros == candidate.fit_residual.micros
                &&& s.held_out_residual_micros == held_out.micros
                &&& s.validation_observations == validation_observations
                &&& s.fitting_evidence_digest_hex@ == hexadecimal(
                    result.fitting_evidence.value as nat,
                    16,
                )
                &&& s.validation_evidence_digest_hex@ == hexadecimal(
                    result.validation_evidence.value as nat,
                    16,
                )
                &&& s.validation_method@ == PROMOTION_VALIDATION_METHOD@
                &&& s.validation_version@ == PROMOTION_VALIDATION_VERSION@
                &&& s.activation_policy_version@ == result.activation_policy_version@
                &&& s.uncertainty_low_micros_per_point == candidate.uncertainty.low().micros
                &&& s.uncertainty_high_micros_per_point == candidate.uncertainty.high().micros
            },
            Err(error) => validation_observations > u32::MAX && error@ == ErrorView::Internal(
                "validation observation count out of u32 range"@,
            ),
        },
{
    if validation_observations as u128 > u32::MAX as u128 {
        return Err(Error::Internal("validation observation count out of u32 range".to_owned()));
    }
    Ok(
        PromotedCandidate {
            result_id: result.id.as_str().to_owned(),
            candidate_id: candidate.id.as_str().to_owned(),
            experiment_id: candidate.experiment.as_str().to_owned(),
            provider: result.provider.as_str().to_owned(),
            plan_tier: result.plan_tier.as_str().to_owned(),
            window_semantic_key: result.window_semantic_key.as_str().to_owned(),
            fitted_micros_per_point: candidate.fitted.micros_per_point(),
            fit_residual_micros: candidate.fit_residual.micros(),
            held_out_residual_micros: held_out.micros(),
            validation_observations: validation_observations as u32,
            fitting_evidence_digest_hex: hex16(result.fitting_evidence.as_u64()),
            validation_evidence_digest_hex: hex16(result.validation_evidence.as_u64()),
            validation_method: PROMOTION_VALIDATION_METHOD.to_owned(),
            validation_version: PROMOTION_VALIDATION_VERSION.to_owned(),
            activation_policy_version: result.activation_policy_version.clone(),
            uncertainty_low_micros_per_point: candidate.uncertainty.lower().micros_per_point(),
            uncertainty_high_micros_per_point: candidate.uncertainty.upper().micros_per_point(),
        },
    )
}

/// What promotion records, activation accepts on its evidence: presented with the same
/// two sets, activation finds both fingerprints reproduced and the sets disjoint.
pub proof fn law_promoted_evidence_is_accepted(
    result: WindowCalibration,
    promotion: CandidatePromotion,
    evidence: PromotionEvidence,
)
    requires
        promotion_error(promotion, evidence) is None,
        promoted(result, promotion, evidence),
    ensures
        EvidenceFingerprint::of(promotion.training@) == result.fitting_evidence,
        EvidenceFingerprint::of(promotion.validation@) == result.validation_evidence,
        overlap(promotion.training@, promotion.validation@).len() == 0,
        result.out_of_sample_residual is Some,
        result.inputs.describes(promotion.training@),
{
}

/// The evidence that is not found is exactly what was asked for and has no reading.
pub proof fn law_unfound_evidence_has_no_reading(
    set: Seq<Seq<char>>,
    readings: Seq<StoredFitObservation>,
    id: Seq<char>,
)
    ensures
        unfound(set, readings).contains(id) <==> set.contains(id) && forall|i: int|
            0 <= i < readings.len() ==> (#[trigger] readings[i]).evidence_id@ != id,
{
    let keep = |id: Seq<char>|
        !exists|i: int| 0 <= i < readings.len() && (#[trigger] readings[i]).evidence_id@ == id;
    lemma_filter_members(set, keep, id);
}

/// A candidate goes on to validation exactly where it is known, the evidence it was fitted
/// from and some to hold it against are named and share nothing, it was fitted from what is
/// named and was not promoted before, its experiment and cost model are known, the ledger
/// still gives the coefficient and the evidence that it records, and every piece of
/// validation evidence has a reading, at least two in all, whose spend is known.
pub proof fn law_promotion_needs_every_condition(
    promotion: CandidatePromotion,
    evidence: PromotionEvidence,
)
    ensures
        promotion_error(promotion, evidence) is None <==> {
            &&& evidence.candidate is Some
            &&& promotion.training@.len() > 0
            &&& promotion.validation@.len() > 0
            &&& forall|id: Seq<char>|
                !(#[trigger] promotion.training@.contains(id) && promotion.validation@.contains(id))
            &&& evidence.candidate->0.inputs.count == promotion.training@.len()
            &&& evidence.candidate->0.inputs.digest == digest_of(promotion.training@)
            &&& !evidence.already_promoted
            &&& evidence.experiment is Some
            &&& evidence.cost_model_id is Some
            &&& evidence.refit is Ok
            &&& evidence.refit->Ok_0.candidate.fitted.micros == evidence.candidate->0.fitted.micros
            &&& evidence.refit->Ok_0.candidate.inputs.count == evidence.candidate->0.inputs.count
            &&& evidence.refit->Ok_0.candidate.inputs.digest == evidence.candidate->0.inputs.digest
            &&& forall|id: Seq<char>| #[trigger]
                promotion.validation@.contains(id) ==> exists|i: int|
                    0 <= i < evidence.validation_readings@.len() && (
                    #[trigger] evidence.validation_readings@[i]).evidence_id@ == id
            &&& evidence.series is Ok
            &&& evidence.validation_readings@.len() >= 2
        },
{
    let validation = promotion.validation@;
    let readings = evidence.validation_readings@;
    law_disjoint_means_nothing_shared(promotion.training@, validation);
    let missing = unfound(validation, readings);
    if missing.len() == 0 {
        assert forall|id: Seq<char>| #[trigger] validation.contains(id) implies exists|i: int|
            0 <= i < readings.len() && (#[trigger] readings[i]).evidence_id@ == id by {
            law_unfound_evidence_has_no_reading(validation, readings, id);
            assert(!missing.contains(id));
        }
    } else {
        law_unfound_evidence_has_no_reading(validation, readings, missing[0]);
        assert(missing.contains(missing[0]));
        assert(validation.contains(missing[0]));
    }
    if evidence.candidate is Some && evidence.refit is Ok {
        let recorded = evidence.candidate->0;
        let again = evidence.refit->Ok_0.candidate;
        assert(again.fitted == recorded.fitted <==> again.fitted.micros == recorded.fitted.micros);
        assert(again.inputs == recorded.inputs <==> (again.inputs.count == recorded.inputs.count
            && again.inputs.digest == recorded.inputs.digest));
    }
}

/// A promoted result records what was fitted, for the window, the meter and the billing it
/// was fitted under, with the evidence that was named, and nothing that was not measured.
pub proof fn law_promotion_records_what_was_fitted(
    result: WindowCalibration,
    promotion: CandidatePromotion,
    evidence: PromotionEvidence,
)
    requires
        promoted(result, promotion, evidence),
    ensures
        ({
            let candidate = evidence.candidate->0;
            let experiment = evidence.experiment->0;
            let refit = evidence.refit->Ok_0;
            &&& result.fitted.micros == candidate.fitted.micros
            &&& result.equivalent_full_window_capacity.micros
                == candidate.equivalent_full_window_capacity.micros
            &&& result.fit_residual.micros == candidate.fit_residual.micros
            &&& result.uncertainty.low() == candidate.uncertainty.low()
            &&& result.uncertainty.high() == candidate.uncertainty.high()
            &&& result.sample_count == candidate.sample_count
            &&& result.inputs == candidate.inputs
            &&& result.fit_timestamp == candidate.knowledge_time
            &&& result.validity == candidate.validity
            &&& result.id@ == evidence.result_id@
            &&& result.provider@ == experiment.provider@
            &&& result.plan_tier@ == experiment.plan_tier@
            &&& result.window_semantic_key@ == experiment.window_semantic_key@
            &&& result.meter_semantics_id@ == experiment.meter_semantics_id@
            &&& result.billing_semantics_id@ == experiment.billing_semantics_id@
            &&& evidence.cost_model_id matches Some(model) ==> result.cost_model_id@ == model@
            &&& result.fitting_evidence.value == digest_of(promotion.training@)
            &&& result.validation_evidence.value == digest_of(promotion.validation@)
            &&& result.validation_method@ == "held-out-interval-residual"@
            &&& result.validation_version@ == "v1"@
            &&& result.lag_estimate is None
            &&& result.condition_number is None
            &&& result.lag_handling@ == refit.lag_handling@
            &&& result.statistical_method@ == refit.statistical_method@
            &&& result.statistical_parameters@ == refit.statistical_parameters@
            &&& result.excluded_samples@ == refit.excluded_samples@
            &&& result.observation_coverage_requirement@ == "held-out validation over "@ + decimal(
                evidence.validation_readings@.len(),
            ) + " observations disjoint from the fit"@
            &&& result.settling_policy@ == experiment.settlement_policy.version_text()
            &&& result.activation_policy_version@ == promotion.activation_policy_version@
            &&& result.aub_version@ == evidence.aub_version@
            &&& result.source_revision@ == evidence.source_revision@
            &&& result.knowledge_time == evidence.now
            &&& exists|observations: Seq<FitObservation>|
                {
                    &&& observations.len() == evidence.validation_readings@.len()
                    &&& forall|i: int|
                        0 <= i < observations.len() ==> paired(
                            evidence.validation_readings@[i],
                            evidence.series->Ok_0@,
                            #[trigger] observations[i],
                        )
                    &&& result.out_of_sample_residual matches Some(residual) && residual.micros
                        == #[trigger] held_out(candidate.fitted, observations)
                }
        }),
{
    let candidate = evidence.candidate->0;
    let readings = evidence.validation_readings@;
    let series = evidence.series->Ok_0@;
    let residual = result.out_of_sample_residual->0;
    let observations = choose|observations: Seq<FitObservation>| #[trigger]
        all_paired(readings, series, observations) && observations.len() >= 2 && measurable(
            observations,
        ) && residual.micros == held_out(candidate.fitted, observations);
    assert(all_paired(readings, series, observations));
    assert(residual.micros == held_out(candidate.fitted, observations));
}

/// Validation reads until the latest of its readings, or until the experiment ends where
/// that is later.
pub proof fn law_validation_reads_until_its_latest_reading(
    readings: Seq<StoredFitObservation>,
    least: UtcTimestamp,
)
    ensures
        latest(readings, least).nanos >= least.nanos,
        forall|i: int|
            0 <= i < readings.len() ==> (#[trigger] readings[i]).at.nanos <= latest(
                readings,
                least,
            ).nanos,
        latest(readings, least) == least || exists|i: int|
            0 <= i < readings.len() && (#[trigger] readings[i]).at == latest(readings, least),
    decreases readings.len(),
{
    if readings.len() > 0 {
        let shorter = readings.drop_last();
        law_validation_reads_until_its_latest_reading(shorter, least);
        assert forall|i: int| 0 <= i < readings.len() implies (#[trigger] readings[i]).at.nanos
            <= latest(readings, least).nanos by {
            if i < shorter.len() {
                assert(shorter[i] == readings[i]);
            }
        }
        let found = latest(shorter, least);
        if found != least {
            let i = choose|i: int| 0 <= i < shorter.len() && (#[trigger] shorter[i]).at == found;
            assert(readings[i].at == found);
        }
        assert(readings[readings.len() - 1] == readings.last());
    }
}

/// There is a residual over all ordinary readings: those of a window, at a resolution
/// within it, and spend that is not negative and fits when added up.
pub proof fn law_ordinary_residuals_are_representable(
    readings: Seq<StoredFitObservation>,
    series: Seq<Spend>,
    most: int,
)
    requires
        0 <= most,
        most * series.len() <= i64::MAX,
        forall|i: int| 0 <= i < series.len() ==> 0 <= (#[trigger] series[i]).credits.micros <= most,
        forall|i: int|
            0 <= i < readings.len() ==> 0 <= (#[trigger] readings[i]).quota_used_ppm <= 1_000_000
                && 0 <= readings[i].reported_resolution_ppm <= 1_000_000,
    ensures
        !residual_not_representable(readings, series),
{
    assert forall|i: int| 0 <= i < readings.len() implies total_fits(
        series,
        (#[trigger] readings[i]).at,
    ) by {
        law_spend_that_is_small_fits(series, readings[i].at, most);
    }
    assert forall|observations: Seq<FitObservation>|
        readings.len() >= 2 && #[trigger] all_paired(
            readings,
            series,
            observations,
        ) implies measurable(observations) by {
        assert forall|i: int| 0 <= i < observations.len() implies 0 <= (
        #[trigger] observations[i]).quota_used_ppm <= 1_000_000 && 0
            <= observations[i].reported_resolution_ppm <= 1_000_000 && 0
            <= observations[i].cumulative_credits.micros by {
            assert(paired(readings[i], series, observations[i]));
            law_spend_that_is_small_fits(series, readings[i].at, most);
        }
        law_ordinary_readings_are_measurable(observations);
    }
}

} // verus!
