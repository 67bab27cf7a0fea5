//! Validating and promoting a joint candidate.
//!
//! The validation readings are folded into settled blocks exactly as a fit folds its
//! own. The movement of each block is predicted from the recorded coefficients, and the
//! mean miss over the blocks that hold a fitted class is the held-out residual.

use crate::attribution::SessionMarkers;
use crate::calibration::activation::law_disjoint_means_nothing_shared;
use crate::calibration::fitter::{
    law_usable_observations_advance, partition, partition_usable_observations, FitObservation,
};
use crate::calibration::multivariate_fit::{
    account_blocks, all_unspent, blocks_over, uncountable, unknown_usage, without_spend,
    ControlledBlocks, ControlledExperimentRun, MultivariateCandidate, SettledBlock,
    StoredKindCoefficient,
};
use crate::calibration::promotion::{
    about, check_promotion_candidate, check_promotion_evidence, check_validation_held,
    copied_error, digest_differs, evidence_refusal, law_unfound_evidence_has_no_reading, not_held,
    promoted_before, training_differs, unfound, CandidatePromotion,
};
use crate::domain::{
    KnownTokenVector, QuotaFractionPpm, TokenKind, UtcTimestamp, FULL_WINDOW_PPM,
};
use crate::error::{Error, ErrorView};
use crate::ids::{
    CandidateId, ExperimentId, PlanTier, ProviderKey, WindowCalibrationId, WindowSemanticKey,
};
use crate::records::{
    digest_of, ConditionNumber, EvidenceDigest, EvidenceFingerprint, StoredFitObservation,
    StoredUsageEvent, ValidityInterval,
};
use crate::text::{decimal, decimal_text, signed_decimal, signed_decimal_text};
use vstd::prelude::*;
use vstd::string::*;

verus! {

/// The validation procedure a promoted per-class result records.
pub const PER_KIND_VALIDATION_METHOD: &'static str = "held-out-block-residual";

/// The version of that procedure.
pub const PER_KIND_VALIDATION_VERSION: &'static str = "v1";

/// Whether an `i128` holds a number.
pub open spec fn fits(n: int) -> bool {
    i128::MIN <= n <= i128::MAX
}

/// The movement that the first `n` coefficients predict for some tokens, in millionths
/// of a part per million.
pub open spec fn predicted(
    coefficients: Seq<StoredKindCoefficient>,
    tokens: KnownTokenVector,
    n: int,
) -> int
    decreases n,
{
    if n <= 0 {
        0
    } else {
        predicted(coefficients, tokens, n - 1) + coefficients[n - 1].estimate_micro_ppm_per_token
            * tokens.count(coefficients[n - 1].kind)
    }
}

/// How far the movement of a block is from its prediction, in half millionths of a part
/// per million.
pub open spec fn miss(coefficients: Seq<StoredKindCoefficient>, block: SettledBlock) -> int {
    let off = 2 * predicted(coefficients, block.tokens, coefficients.len() as int) - 1_000_000
        * block.twice_delta_ppm;
    if off < 0 {
        -off
    } else {
        off
    }
}

/// Whether a block holds a class that has a coefficient.
pub open spec fn holds_fitted(
    coefficients: Seq<StoredKindCoefficient>,
    tokens: KnownTokenVector,
) -> bool {
    exists|i: int|
        0 <= i < coefficients.len() && tokens.count((#[trigger] coefficients[i]).kind) > 0
}

/// How many of the first `n` blocks hold a fitted class.
pub open spec fn fitted_blocks(
    coefficients: Seq<StoredKindCoefficient>,
    blocks: Seq<SettledBlock>,
    n: int,
) -> nat
    decreases n,
{
    if n <= 0 {
        0
    } else {
        fitted_blocks(coefficients, blocks, n - 1) + if holds_fitted(
            coefficients,
            blocks[n - 1].tokens,
        ) {
            1nat
        } else {
            0nat
        }
    }
}

/// The misses of those blocks, together.
pub open spec fn missed(
    coefficients: Seq<StoredKindCoefficient>,
    blocks: Seq<SettledBlock>,
    n: int,
) -> int
    decreases n,
{
    if n <= 0 {
        0
    } else {
        missed(coefficients, blocks, n - 1) + if holds_fitted(coefficients, blocks[n - 1].tokens) {
            miss(coefficients, blocks[n - 1])
        } else {
            0
        }
    }
}

/// Whether an `i128` holds every prediction, movement and miss, and the sum of the misses.
pub open spec fn misses_fit(
    coefficients: Seq<StoredKindCoefficient>,
    blocks: Seq<SettledBlock>,
) -> bool {
    &&& fits(missed(coefficients, blocks, blocks.len() as int))
    &&& forall|j: int|
        0 <= j < blocks.len() && holds_fitted(coefficients, (#[trigger] blocks[j]).tokens)
            ==> miss_fits(coefficients, blocks[j])
}

/// Whether an `i128` holds the movement of a block, its prediction at every step and
/// doubled, and the distance between them; the first and the last two in half millionths
/// of a part per million.
pub open spec fn miss_fits(coefficients: Seq<StoredKindCoefficient>, block: SettledBlock) -> bool {
    &&& fits(1_000_000 * block.twice_delta_ppm)
    &&& forall|m: int|
        0 <= m <= coefficients.len() ==> fits(#[trigger] predicted(coefficients, block.tokens, m))
    &&& fits(2 * predicted(coefficients, block.tokens, coefficients.len() as int))
    &&& fits(miss(coefficients, block))
}

/// A quotient rounded to the nearest whole number, halves upwards.
pub open spec fn nearest_up(total: int, unit: int) -> int {
    (2 * total + unit) / (2 * unit)
}

/// A quotient rounded to the nearest whole number, halves to the even one.
pub open spec fn nearest_even(total: int, unit: int) -> int {
    let whole = total / unit;
    let rest = 2 * (total % unit);
    if rest > unit || (rest == unit && whole % 2 == 1) {
        whole + 1
    } else {
        whole
    }
}

/// The mean miss over the blocks that hold a fitted class, in whole parts per million.
pub open spec fn mean_miss(
    coefficients: Seq<StoredKindCoefficient>,
    blocks: Seq<SettledBlock>,
) -> int {
    nearest_up(
        missed(coefficients, blocks, blocks.len() as int),
        2_000_000int * fitted_blocks(coefficients, blocks, blocks.len() as int),
    )
}

/// What is said where the readings hold no movement to predict.
pub open spec fn nothing_to_predict(account: Seq<char>) -> ErrorView {
    ErrorView::InsufficientEvidence(
        "held-out validation holds no settled block of account '"@ + account
            + "' usage in a fitted kind, so there is no movement to predict"@,
    )
}

/// What is said where the mean miss is more than a whole window.
pub open spec fn not_a_fraction(
    coefficients: Seq<StoredKindCoefficient>,
    blocks: Seq<SettledBlock>,
) -> ErrorView {
    ErrorView::InsufficientEvidence(
        "held-out residual "@ + decimal(
            nearest_even(
                missed(coefficients, blocks, blocks.len() as int),
                2_000_000int * fitted_blocks(coefficients, blocks, blocks.len() as int),
            ) as nat,
        )
            + " ppm is not a fraction of the quota; the coefficients do not describe this window"@,
    )
}

proof fn lemma_miss_is_not_negative(
    coefficients: Seq<StoredKindCoefficient>,
    blocks: Seq<SettledBlock>,
    m: int,
    n: int,
)
    requires
        0 <= m <= n <= blocks.len(),
    ensures
        0 <= missed(coefficients, blocks, m) <= missed(coefficients, blocks, n),
        fitted_blocks(coefficients, blocks, n) <= n,
        fitted_blocks(coefficients, blocks, n) == 0 ==> missed(coefficients, blocks, n) == 0,
    decreases n,
{
    if n > 0 {
        if m < n {
            lemma_miss_is_not_negative(coefficients, blocks, m, n - 1);
        } else {
            lemma_miss_is_not_negative(coefficients, blocks, n - 1, n - 1);
        }
    }
}

/// A quotient rounded to the nearest is the whole quotient, or one more where the rest is
/// at least half the divisor.
proof fn lemma_rounded(total: int, unit: int)
    requires
        total >= 0,
        unit >= 2,
    ensures
        0 <= total / unit,
        2 * (total / unit) <= total,
        0 <= total % unit < unit,
        nearest_up(total, unit) == if 2 * (total % unit) >= unit {
            total / unit + 1
        } else {
            total / unit
        },
{
    let whole = total / unit;
    let rest = total % unit;
    vstd::arithmetic::div_mod::lemma_fundamental_div_mod(total, unit);
    assert(0 <= whole && 2 * whole <= total && 0 <= rest < unit) by (nonlinear_arith)
        requires
            total == unit * whole + rest,
            rest == total % unit,
            whole == total / unit,
            total >= 0,
            unit >= 2,
    ;
    let (more, left) = if 2 * rest >= unit {
        (whole + 1, 2 * rest - unit)
    } else {
        (whole, 2 * rest + unit)
    };
    assert(2 * total + unit == more * (2 * unit) + left) by (nonlinear_arith)
        requires
            total == unit * whole + rest,
            more == whole + 1 && left == 2 * rest - unit || more == whole && left == 2 * rest
                + unit,
    ;
    vstd::arithmetic::div_mod::lemma_fundamental_div_mod_converse(
        2 * total + unit,
        2 * unit,
        more,
        left,
    );
}

/// The prediction for some tokens; nothing where a step of it does not fit.
fn predict(coefficients: &Vec<StoredKindCoefficient>, tokens: KnownTokenVector) -> (sum: Option<
    i128,
>)
    ensures
        match sum {
            Some(s) => s == predicted(coefficients@, tokens, coefficients@.len() as int),
            None => exists|m: int|
                0 <= m <= coefficients@.len() && !fits(
                    #[trigger] predicted(coefficients@, tokens, m),
                ),
        },
{
    let mut sum: i128 = 0;
    let mut i: usize = 0;
    while i < coefficients.len()
        invariant
            i <= coefficients@.len(),
            sum == predicted(coefficients@, tokens, i as int),
        decreases coefficients@.len() - i,
    {
        let estimate: i64 = coefficients[i].estimate_micro_ppm_per_token;
        let count: u64 = tokens.get(coefficients[i].kind);
        assert(-0x8000_0000_0000_0000_0000_0000_0000_0000 <= estimate * count
            <= 0x7fff_ffff_ffff_ffff_ffff_ffff_ffff_ffff) by (nonlinear_arith)
            requires
                -0x8000_0000_0000_0000 <= estimate <= 0x7fff_ffff_ffff_ffff,
                0 <= count <= 0xffff_ffff_ffff_ffff,
        ;
        let product: i128 = estimate as i128 * count as i128;
        match sum.checked_add(product) {
            Some(next) => {
                sum = next;
            },
            None => {
                assert(sum + product == predicted(coefficients@, tokens, i + 1));
                return None;
            },
        }
        i = i + 1;
    }
    Some(sum)
}

/// Whether tokens hold a class that has a coefficient.
fn holds_fitted_kind(coefficients: &Vec<StoredKindCoefficient>, tokens: KnownTokenVector) -> (held:
    bool)
    ensures
        held == holds_fitted(coefficients@, tokens),
{
    let mut i: usize = 0;
    while i < coefficients.len()
        invariant
            i <= coefficients@.len(),
            forall|k: int|
                0 <= k < i ==> tokens.count((#[trigger] coefficients@[k]).kind) == 0,
        decreases coefficients@.len() - i,
    {
        if tokens.get(coefficients[i].kind) > 0 {
            assert(tokens.count(coefficients@[i as int].kind) > 0);
            return true;
        }
        i = i + 1;
    }
    false
}

/// How far a block is from its prediction; nothing where a step towards that does not
/// fit.
fn block_miss(coefficients: &Vec<StoredKindCoefficient>, block: &SettledBlock) -> (off: Option<
    i128,
>)
    ensures
        match off {
            Some(o) => o == miss(coefficients@, *block) && 0 <= o,
            None => !miss_fits(coefficients@, *block),
        },
{
    let sum: i128 = match predict(coefficients, block.tokens) {
        Some(sum) => sum,
        None => {
            return None;
        },
    };
    let twice: i128 = match sum.checked_mul(2) {
        Some(twice) => twice,
        None => {
            return None;
        },
    };
    let moved: i128 = match block.twice_delta_ppm.checked_mul(1_000_000) {
        Some(moved) => moved,
        None => {
            return None;
        },
    };
    match twice.checked_sub(moved) {
        Some(off) => {
            if off >= 0 {
                Some(off)
            } else if off > i128::MIN {
                Some(-off)
            } else {
                None
            }
        },
        None => None,
    }
}

/// Measures the residual of coefficients over some blocks: the mean miss over those that
/// hold a fitted class. A residual over no movement is refused, because it would read as
/// a perfect validation of nothing; so is one that is more than a whole window. There is
/// no result where an `i128` does not hold a prediction, a movement, a miss, or the sum of
/// the misses.
pub fn block_residual(
    account: &str,
    coefficients: &Vec<StoredKindCoefficient>,
    blocks: &Vec<SettledBlock>,
) -> (residual: Option<Result<QuotaFractionPpm, Error>>)
    ensures
        ({
            let fitted = fitted_blocks(coefficients@, blocks@, blocks@.len() as int);
            let mean = mean_miss(coefficients@, blocks@);
            match residual {
                Some(Ok(fraction)) => fitted > 0 && mean <= FULL_WINDOW_PPM && fraction@ == mean,
                Some(Err(error)) => if fitted == 0 {
                    error@ == nothing_to_predict(account@)
                } else {
                    mean > FULL_WINDOW_PPM && error@ == not_a_fraction(coefficients@, blocks@)
                },
                None => !misses_fit(coefficients@, blocks@),
            }
        }),
{
    let total: usize = blocks.len();
    let mut sum: i128 = 0;
    let mut fitted: usize = 0;
    let mut i: usize = 0;
    while i < total
        invariant
            i <= total,
            total == blocks@.len(),
            fitted <= i,
            fitted == fitted_blocks(coefficients@, blocks@, i as int),
            sum == missed(coefficients@, blocks@, i as int),
            0 <= sum,
        decreases total - i,
    {
        if holds_fitted_kind(coefficients, blocks[i].tokens) {
            match block_miss(coefficients, &blocks[i]) {
                Some(off) => match sum.checked_add(off) {
                    Some(more) => {
                        sum = more;
                        fitted = fitted + 1;
                    },
                    None => {
                        proof {
                            lemma_miss_is_not_negative(
                                coefficients@,
                                blocks@,
                                i + 1,
                                blocks@.len() as int,
                            );
                        }
                        return None;
                    },
                },
                None => {
                    assert(!miss_fits(coefficients@, blocks@[i as int]));
                    return None;
                },
            }
        }
        i = i + 1;
    }
    if fitted == 0 {
        let mut message: String =
            "held-out validation holds no settled block of account '".to_owned();
        message.append(account);
        message.append("' usage in a fitted kind, so there is no movement to predict");
        return Some(Err(Error::InsufficientEvidence(message)));
    }
    let unit: i128 = 2_000_000 * (fitted as i128);
    let whole: i128 = sum / unit;
    let rest: i128 = sum % unit;
    proof {
        lemma_rounded(sum as int, unit as int);
    }
    let mean: i128 = if 2 * rest >= unit {
        whole + 1
    } else {
        whole
    };
    if mean <= 1_000_000 {
        match QuotaFractionPpm::new(mean as i32) {
            Some(fraction) => {
                return Some(Ok(fraction));
            },
            None => {},
        }
    }
    assert(mean > FULL_WINDOW_PPM);
    let shown: i128 = if 2 * rest > unit || (2 * rest == unit && whole % 2 == 1) {
        whole + 1
    } else {
        whole
    };
    let mut message: String = "held-out residual ".to_owned();
    message.append(decimal_text(shown as u128).as_str());
    message.append(
        " ppm is not a fraction of the quota; the coefficients do not describe this window",
    );
    Some(Err(Error::InsufficientEvidence(message)))
}

/// What is said where no reading can be used.
pub open spec fn nothing_usable() -> ErrorView {
    ErrorView::InsufficientEvidence("held-out validation holds no usable reading"@)
}

/// Whether no validation reading can be used.
pub open spec fn none_usable(validation: Seq<StoredFitObservation>) -> bool {
    exists|observations: Seq<FitObservation>| #[trigger]
        all_unspent(validation, observations) && partition(observations).usable.len() == 0
}

/// Whether the usable ones among some validation readings span an interval.
pub open spec fn spans(
    validation: Seq<StoredFitObservation>,
    first: UtcTimestamp,
    last: UtcTimestamp,
) -> bool {
    exists|observations: Seq<FitObservation>| #[trigger]
        all_unspent(validation, observations) && partition(observations).usable.len() > 0 && first
            == partition(observations).usable.first().at && last == partition(
            observations,
        ).usable.last().at
}

/// From when to when usage is needed to validate: the first and the last usable reading.
pub fn validation_span(validation: &Vec<StoredFitObservation>) -> (span: Result<
    (UtcTimestamp, UtcTimestamp),
    Error,
>)
    ensures
        match span {
            Ok((first, last)) => spans(validation@, first, last),
            Err(error) => none_usable(validation@) && error@ == nothing_usable(),
        },
{
    let observations: Vec<FitObservation> = without_spend(validation);
    let (usable, _) = partition_usable_observations(&observations);
    assert(all_unspent(validation@, observations@));
    if usable.len() == 0 {
        return Err(
            Error::InsufficientEvidence("held-out validation holds no usable reading".to_owned()),
        );
    }
    Ok((usable[0].at, usable[usable.len() - 1].at))
}

/// Whether a fraction is the mean miss of coefficients over the blocks that validation
/// readings and the usage of an account make up.
pub open spec fn block_residual_over(
    account: Seq<char>,
    coefficients: Seq<StoredKindCoefficient>,
    validation: Seq<StoredFitObservation>,
    usage: Seq<StoredUsageEvent>,
    markers: Seq<SessionMarkers>,
    fraction: QuotaFractionPpm,
) -> bool {
    exists|observations: Seq<FitObservation>, blocks: Seq<SettledBlock>|
        {
            &&& #[trigger] all_unspent(validation, observations)
            &&& partition(observations).usable.len() > 0
            &&& #[trigger] blocks_over(
                account,
                partition(observations).usable,
                usage,
                markers,
                blocks,
            )
            &&& fitted_blocks(coefficients, blocks, blocks.len() as int) > 0
            &&& mean_miss(coefficients, blocks) <= FULL_WINDOW_PPM
            &&& fraction@ == mean_miss(coefficients, blocks)
        }
}

/// Whether an error is why there is no such residual.
pub open spec fn block_residual_refused(
    account: Seq<char>,
    coefficients: Seq<StoredKindCoefficient>,
    validation: Seq<StoredFitObservation>,
    usage: Seq<StoredUsageEvent>,
    markers: Seq<SessionMarkers>,
    error: ErrorView,
) -> bool {
    ||| none_usable(validation) && error == nothing_usable()
    ||| exists|observations: Seq<FitObservation>| #[trigger]
        all_unspent(validation, observations) && partition(observations).usable.len() > 0
            && unknown_usage(account, usage, markers, error)
    ||| exists|observations: Seq<FitObservation>, blocks: Seq<SettledBlock>|
        {
            &&& #[trigger] all_unspent(validation, observations)
            &&& partition(observations).usable.len() > 0
            &&& #[trigger] blocks_over(
                account,
                partition(observations).usable,
                usage,
                markers,
                blocks,
            )
            &&& if fitted_blocks(coefficients, blocks, blocks.len() as int) == 0 {
                error == nothing_to_predict(account)
            } else if mean_miss(coefficients, blocks) > FULL_WINDOW_PPM {
                error == not_a_fraction(coefficients, blocks)
            } else {
                validation.len() > u32::MAX && error == ErrorView::Internal(
                    "validation reading count out of u32 range"@,
                )
            }
        }
}

/// Whether a count of tokens is too large to hold, or an `i128` does not hold a miss.
pub open spec fn block_residual_unheld(
    account: Seq<char>,
    coefficients: Seq<StoredKindCoefficient>,
    validation: Seq<StoredFitObservation>,
    usage: Seq<StoredUsageEvent>,
    markers: Seq<SessionMarkers>,
) -> bool {
    ||| exists|observations: Seq<FitObservation>| #[trigger]
        all_unspent(validation, observations) && partition(observations).usable.len() > 0
            && uncountable(account, partition(observations).usable, usage, markers)
    ||| exists|observations: Seq<FitObservation>, blocks: Seq<SettledBlock>|
        {
            &&& #[trigger] all_unspent(validation, observations)
            &&& partition(observations).usable.len() > 0
            &&& #[trigger] blocks_over(
                account,
                partition(observations).usable,
                usage,
                markers,
                blocks,
            )
            &&& !misses_fit(coefficients, blocks)
        }
}

/// The held-out residual of a joint candidate and the number of readings it was read
/// from. The usage is that of the validation span. There is no result where a count of
/// tokens is too large to hold, or an `i128` does not hold a miss.
pub fn held_out_block_residual(
    run: &ControlledExperimentRun,
    coefficients: &Vec<StoredKindCoefficient>,
    validation: &Vec<StoredFitObservation>,
    usage: &Vec<StoredUsageEvent>,
    markers: &Vec<SessionMarkers>,
) -> (residual: Option<Result<(QuotaFractionPpm, u32), Error>>)
    ensures
        match residual {
            Some(Ok((fraction, readings))) => readings == validation@.len()
                && block_residual_over(
                run.account@,
                coefficients@,
                validation@,
                usage@,
                markers@,
                fraction,
            ),
            Some(Err(error)) => block_residual_refused(
                run.account@,
                coefficients@,
                validation@,
                usage@,
                markers@,
                error@,
            ),
            None => block_residual_unheld(
                run.account@,
                coefficients@,
                validation@,
                usage@,
                markers@,
            ),
        },
{
    let observations: Vec<FitObservation> = without_spend(validation);
    let (usable, _) = partition_usable_observations(&observations);
    assert(all_unspent(validation@, observations@));
    if usable.len() == 0 {
        return Some(
            Err(
                Error::InsufficientEvidence(
                    "held-out validation holds no usable reading".to_owned(),
                ),
            ),
        );
    }
    let found: ControlledBlocks = match account_blocks(
        run.account.as_str(),
        &usable,
        usage,
        markers,
    ) {
        Some(Ok(found)) => found,
        Some(Err(error)) => {
            return Some(Err(error));
        },
        None => {
            return None;
        },
    };
    assert(blocks_over(run.account@, usable@, usage@, markers@, found.blocks@));
    let fraction: QuotaFractionPpm = match block_residual(
        run.account.as_str(),
        coefficients,
        &found.blocks,
    ) {
        Some(Ok(fraction)) => fraction,
        Some(Err(error)) => {
            return Some(Err(error));
        },
        None => {
            return None;
        },
    };
    let readings: usize = validation.len();
    if readings > u32::MAX as usize {
        return Some(
            Err(Error::Internal("validation reading count out of u32 range".to_owned())),
        );
    }
    Some(Ok((fraction, readings as u32)))
}

/// A recorded per-class result.
#[derive(Debug, PartialEq, Eq)]
pub struct MultivariateCalibration {
    pub id: WindowCalibrationId,
    pub candidate: CandidateId,
    pub experiment: ExperimentId,
    pub provider: ProviderKey,
    pub plan_tier: PlanTier,
    pub window_semantic_key: WindowSemanticKey,
    pub coefficients: Vec<StoredKindCoefficient>,
    pub condition_number: ConditionNumber,
    pub condition_number_threshold: ConditionNumber,
    pub fit_residual: QuotaFractionPpm,
    pub held_out_residual: QuotaFractionPpm,
    pub validation_observations: u32,
    pub sample_count: u32,
    pub inputs: EvidenceDigest,
    pub fitting_evidence: EvidenceFingerprint,
    pub validation_evidence: EvidenceFingerprint,
    pub validation_method: String,
    pub validation_version: String,
    pub statistical_method: String,
    pub statistical_parameters: String,
    pub phase_design: String,
    pub activation_policy_version: String,
    pub aub_version: String,
    pub source_revision: String,
    pub validity: ValidityInterval,
    pub fit_timestamp: UtcTimestamp,
    pub knowledge_time: UtcTimestamp,
}

/// The usage of an interval, with the timelines of the sessions that it names.
#[derive(Debug)]
pub struct ValidationUsage {
    pub usage: Vec<StoredUsageEvent>,
    pub markers: Vec<SessionMarkers>,
}

/// What the ledger holds for the promotion of a joint candidate.
#[derive(Debug)]
pub struct MultivariatePromotionEvidence {
    /// The joint candidate, where there is one of that name.
    pub candidate: Option<MultivariateCandidate>,
    /// The identity the promoted result takes.
    pub result_id: WindowCalibrationId,
    /// The result the candidate is recorded as already.
    pub recorded_as: Option<WindowCalibrationId>,
    /// The controlled run behind the candidate.
    pub run: Option<ControlledExperimentRun>,
    /// The readings found for the validation evidence.
    pub validation_readings: Vec<StoredFitObservation>,
    /// The usage of the interval that the usable ones among those readings span.
    pub spent: Result<ValidationUsage, Error>,
    pub now: UtcTimestamp,
    pub aub_version: String,
    pub source_revision: String,
}

/// Why the promotion of a joint candidate is refused before it is validated, in the order
/// of the checks; nothing where it goes on to that.
pub open spec fn joint_promotion_error(
    promotion: CandidatePromotion,
    evidence: MultivariatePromotionEvidence,
) -> Option<ErrorView> {
    let asked = promotion.candidate_id@;
    let training = promotion.training@;
    let validation = promotion.validation@;
    if evidence.candidate is None {
        Some(
            ErrorView::Usage(
                "no joint calibration candidate '"@ + asked
                    + "'; fit one with `aub calibrate fit`"@,
            ),
        )
    } else if evidence_refusal(asked, training, validation) is Some {
        evidence_refusal(asked, training, validation)
    } else {
        let candidate = evidence.candidate->0;
        if digest_differs(candidate.inputs, training) {
            Some(ErrorView::Usage(about(asked, training_differs(training, candidate.inputs))))
        } else if evidence.recorded_as is Some {
            Some(ErrorView::Usage(about(asked, promoted_before(evidence.recorded_as->0@))))
        } else if evidence.run is None {
            Some(
                ErrorView::InsufficientEvidence(
                    "no controlled experiment '"@ + candidate.experiment@
                        + "' behind joint candidate '"@ + asked + "'"@,
                ),
            )
        } else if unfound(validation, evidence.validation_readings@).len() > 0 {
            Some(
                ErrorView::InsufficientEvidence(
                    about(
                        asked,
                        not_held(
                            candidate.provider@,
                            candidate.window_semantic_key@,
                            unfound(validation, evidence.validation_readings@),
                        ),
                    ),
                ),
            )
        } else {
            None
        }
    }
}

/// What is said where a joint candidate records a residual that is no fraction.
pub open spec fn unrecordable(asked: Seq<char>, residual: int) -> ErrorView {
    ErrorView::Store(
        "joint candidate '"@ + asked + "' records fit residual "@ + signed_decimal(residual)
            + " ppm, outside a quota fraction"@,
    )
}

/// Whether an error is why a joint candidate that went on to validation is refused: no
/// reading can be used, the usage cannot be read, there is no residual, or the candidate
/// records one of its own that is no fraction.
pub open spec fn validation_refused(
    promotion: CandidatePromotion,
    evidence: MultivariatePromotionEvidence,
    error: ErrorView,
) -> bool {
    let candidate = evidence.candidate->0;
    let account = evidence.run->0.account@;
    let validation = evidence.validation_readings@;
    match evidence.spent {
        Err(unread) => {
            ||| none_usable(validation) && error == nothing_usable()
            ||| error == unread@ && exists|first: UtcTimestamp, last: UtcTimestamp| #[trigger]
                spans(validation, first, last)
        },
        Ok(spent) => {
            ||| block_residual_refused(
                account,
                candidate.coefficients@,
                validation,
                spent.usage@,
                spent.markers@,
                error,
            )
            ||| {
                &&& exists|fraction: QuotaFractionPpm| #[trigger]
                    block_residual_over(
                        account,
                        candidate.coefficients@,
                        validation,
                        spent.usage@,
                        spent.markers@,
                        fraction,
                    )
                &&& !(0 <= candidate.fit_residual_ppm <= FULL_WINDOW_PPM)
                &&& error == unrecordable(
                    promotion.candidate_id@,
                    candidate.fit_residual_ppm as int,
                )
            }
        },
    }
}

/// Whether a result is what the promotion of a joint candidate records.
pub open spec fn jointly_promoted(
    result: MultivariateCalibration,
    promotion: CandidatePromotion,
    evidence: MultivariatePromotionEvidence,
) -> bool {
    let candidate = evidence.candidate->0;
    &&& result.id@ == evidence.result_id@
    &&& result.candidate@ == promotion.candidate_id@
    &&& result.experiment@ == candidate.experiment@
    &&& result.provider@ == candidate.provider@
    &&& result.plan_tier@ == candidate.plan_tier@
    &&& result.window_semantic_key@ == candidate.window_semantic_key@
    &&& result.coefficients@ == candidate.coefficients@
    &&& result.condition_number == candidate.condition_number
    &&& result.condition_number_threshold == candidate.condition_number_threshold
    &&& result.fit_residual@ == candidate.fit_residual_ppm
    &&& evidence.spent is Ok
    &&& block_residual_over(
        evidence.run->0.account@,
        candidate.coefficients@,
        evidence.validation_readings@,
        evidence.spent->Ok_0.usage@,
        evidence.spent->Ok_0.markers@,
        result.held_out_residual,
    )
    &&& result.validation_observations == evidence.validation_readings@.len()
    &&& result.sample_count == candidate.sample_count
    &&& result.inputs == candidate.inputs
    &&& result.fitting_evidence == EvidenceFingerprint::of(promotion.training@)
    &&& result.validation_evidence == EvidenceFingerprint::of(promotion.validation@)
    &&& result.validation_method@ == PER_KIND_VALIDATION_METHOD@
    &&& result.validation_version@ == PER_KIND_VALIDATION_VERSION@
    &&& result.statistical_method@ == candidate.statistical_method@
    &&& result.statistical_parameters@ == candidate.statistical_parameters@
    &&& result.phase_design@ == candidate.phase_design@
    &&& result.activation_policy_version@ == promotion.activation_policy_version@
    &&& result.aub_version@ == evidence.aub_version@
    &&& result.source_revision@ == evidence.source_revision@
    &&& result.validity == candidate.validity
    &&& result.fit_timestamp == candidate.knowledge_time
    &&& result.knowledge_time == evidence.now
}

fn copied_coefficients(list: &Vec<StoredKindCoefficient>) -> (copy: Vec<StoredKindCoefficient>)
    ensures
        copy@ == list@,
{
    let mut copy: Vec<StoredKindCoefficient> = Vec::new();
    let mut i: usize = 0;
    while i < list.len()
        invariant
            i <= list@.len(),
            copy@ == list@.take(i as int),
        decreases list@.len() - i,
    {
        copy.push(list[i]);
        i = i + 1;
    }
    assert(list@.take(list@.len() as int) =~= list@);
    copy
}

/// Decides the promotion of a joint candidate and builds the result it records: the
/// coefficients and the condition number exactly as the candidate recorded them, and the
/// residual of those coefficients over the blocks of the validation readings. It is
/// refused wherever the figures would not be the candidate's own, and it never activates.
/// There is no result where a count of tokens is too large to hold, or an `i128` does not
/// hold a miss.
pub fn promote_multivariate_candidate(
    promotion: &CandidatePromotion<'_>,
    evidence: &MultivariatePromotionEvidence,
) -> (result: Option<Result<MultivariateCalibration, Error>>)
    ensures
        match result {
            Some(Ok(calibration)) => {
                &&& joint_promotion_error(*promotion, *evidence) is None
                &&& jointly_promoted(calibration, *promotion, *evidence)
            },
            Some(Err(error)) => match joint_promotion_error(*promotion, *evidence) {
                Some(refusal) => error@ == refusal,
                None => validation_refused(*promotion, *evidence, error@),
            },
            None => {
                &&& joint_promotion_error(*promotion, *evidence) is None
                &&& evidence.spent is Ok
                &&& block_residual_unheld(
                    evidence.run->0.account@,
                    evidence.candidate->0.coefficients@,
                    evidence.validation_readings@,
                    evidence.spent->Ok_0.usage@,
                    evidence.spent->Ok_0.markers@,
                )
            },
        },
{
    let asked: &str = promotion.candidate_id.as_str();
    let candidate: &MultivariateCandidate = match &evidence.candidate {
        Some(candidate) => candidate,
        None => {
            let mut message: String = "no joint calibration candidate '".to_owned();
            message.append(asked);
            message.append("'; fit one with `aub calibrate fit`");
            return Some(Err(Error::Usage(message)));
        },
    };
    match check_promotion_evidence(promotion) {
        Ok(()) => {},
        Err(error) => {
            return Some(Err(error));
        },
    }
    let recorded_as: Option<&WindowCalibrationId> = match &evidence.recorded_as {
        Some(id) => Some(id),
        None => None,
    };
    match check_promotion_candidate(asked, promotion.training, candidate.inputs, recorded_as) {
        Ok(()) => {},
        Err(error) => {
            return Some(Err(error));
        },
    }
    let run: &ControlledExperimentRun = match &evidence.run {
        Some(run) => run,
        None => {
            let mut message: String = "no controlled experiment '".to_owned();
            message.append(candidate.experiment.as_str());
            message.append("' behind joint candidate '");
            message.append(asked);
            message.append("'");
            return Some(Err(Error::InsufficientEvidence(message)));
        },
    };
    match check_validation_held(
        asked,
        &candidate.provider,
        &candidate.window_semantic_key,
        promotion.validation,
        &evidence.validation_readings,
    ) {
        Ok(()) => {},
        Err(error) => {
            return Some(Err(error));
        },
    }
    match validation_span(&evidence.validation_readings) {
        Ok(_) => {},
        Err(error) => {
            assert(evidence.spent is Ok ==> block_residual_refused(
                run.account@,
                candidate.coefficients@,
                evidence.validation_readings@,
                evidence.spent->Ok_0.usage@,
                evidence.spent->Ok_0.markers@,
                error@,
            ));
            return Some(Err(error));
        },
    }
    let spent: &ValidationUsage = match &evidence.spent {
        Ok(spent) => spent,
        Err(error) => {
            return Some(Err(copied_error(error)));
        },
    };
    let (held_out_residual, validation_observations): (QuotaFractionPpm, u32) =
        match held_out_block_residual(
        run,
        &candidate.coefficients,
        &evidence.validation_readings,
        &spent.usage,
        &spent.markers,
    ) {
        Some(Ok(held_out)) => held_out,
        Some(Err(error)) => {
            return Some(Err(error));
        },
        None => {
            return None;
        },
    };
    let ppm: i64 = candidate.fit_residual_ppm;
    let recorded: Option<QuotaFractionPpm> = if 0 <= ppm && ppm <= 1_000_000 {
        QuotaFractionPpm::new(ppm as i32)
    } else {
        None
    };
    let fit_residual: QuotaFractionPpm = match recorded {
        Some(fraction) => fraction,
        None => {
            let mut message: String = "joint candidate '".to_owned();
            message.append(asked);
            message.append("' records fit residual ");
            message.append(signed_decimal_text(ppm).as_str());
            message.append(" ppm, outside a quota fraction");
            return Some(Err(Error::Store(message)));
        },
    };
    Some(
        Ok(
            MultivariateCalibration {
                id: evidence.result_id.clone(),
                candidate: promotion.candidate_id.clone(),
                experiment: candidate.experiment.clone(),
                provider: candidate.provider.clone(),
                plan_tier: candidate.plan_tier.clone(),
                window_semantic_key: candidate.window_semantic_key.clone(),
                coefficients: copied_coefficients(&candidate.coefficients),
                condition_number: candidate.condition_number,
                condition_number_threshold: candidate.condition_number_threshold,
                fit_residual,
                held_out_residual,
                validation_observations,
                sample_count: candidate.sample_count,
                inputs: candidate.inputs,
                fitting_evidence: EvidenceFingerprint::from_inputs(promotion.training),
                validation_evidence: EvidenceFingerprint::from_inputs(promotion.validation),
                validation_method: PER_KIND_VALIDATION_METHOD.to_owned(),
                validation_version: PER_KIND_VALIDATION_VERSION.to_owned(),
                statistical_method: candidate.statistical_method.clone(),
                statistical_parameters: candidate.statistical_parameters.clone(),
                phase_design: candidate.phase_design.clone(),
                activation_policy_version: promotion.activation_policy_version.to_owned(),
                aub_version: evidence.aub_version.clone(),
                source_revision: evidence.source_revision.clone(),
                validity: candidate.validity,
                fit_timestamp: candidate.knowledge_time,
                knowledge_time: evidence.now,
            },
        ),
    )
}

/// A joint candidate is never promoted on evidence that its fit has seen, nor on none.
pub proof fn law_joint_promotion_is_held_out(
    result: MultivariateCalibration,
    promotion: CandidatePromotion,
    evidence: MultivariatePromotionEvidence,
)
    requires
        joint_promotion_error(promotion, evidence) is None,
        jointly_promoted(result, promotion, evidence),
    ensures
        promotion.training@.len() > 0,
        promotion.validation@.len() > 0,
        crate::calibration::activation::overlap(
            promotion.training@,
            promotion.validation@,
        ).len() == 0,
        evidence.recorded_as is None,
        unfound(promotion.validation@, evidence.validation_readings@).len() == 0,
        evidence.spent is Ok,
{
}

/// Coefficients that predict every block exactly have no residual.
pub proof fn law_exact_coefficients_have_no_residual(
    coefficients: Seq<StoredKindCoefficient>,
    blocks: Seq<SettledBlock>,
)
    requires
        fitted_blocks(coefficients, blocks, blocks.len() as int) > 0,
        forall|j: int| 0 <= j < blocks.len() ==> miss(coefficients, #[trigger] blocks[j]) == 0,
    ensures
        mean_miss(coefficients, blocks) == 0,
{
    lemma_nothing_missed(coefficients, blocks, blocks.len() as int);
    let unit = 2_000_000int * fitted_blocks(coefficients, blocks, blocks.len() as int);
    assert(unit / (2 * unit) == 0) by (nonlinear_arith)
        requires
            unit > 0,
    ;
}

proof fn lemma_nothing_missed(
    coefficients: Seq<StoredKindCoefficient>,
    blocks: Seq<SettledBlock>,
    n: int,
)
    requires
        0 <= n <= blocks.len(),
        forall|j: int| 0 <= j < blocks.len() ==> miss(coefficients, #[trigger] blocks[j]) == 0,
    ensures
        missed(coefficients, blocks, n) == 0,
    decreases n,
{
    if n > 0 {
        lemma_nothing_missed(coefficients, blocks, n - 1);
        assert(miss(coefficients, blocks[n - 1]) == 0);
    }
}

proof fn lemma_predicted_prefix(
    shorter: Seq<StoredKindCoefficient>,
    longer: Seq<StoredKindCoefficient>,
    tokens: KnownTokenVector,
    n: int,
)
    requires
        n <= shorter.len(),
        n <= longer.len(),
        forall|i: int| 0 <= i < n ==> shorter[i] == #[trigger] longer[i],
    ensures
        predicted(shorter, tokens, n) == predicted(longer, tokens, n),
    decreases n,
{
    if n > 0 {
        lemma_predicted_prefix(shorter, longer, tokens, n - 1);
        assert(shorter[n - 1] == longer[n - 1]);
    }
}

/// A prediction adds up over the coefficients: none predicts nothing, and one more adds
/// its estimate for each token of its class, whatever stands before it. So tokens of two
/// classes with positive coefficients move the meter by more than those of either class.
pub proof fn law_predictions_add_up(
    coefficients: Seq<StoredKindCoefficient>,
    last: StoredKindCoefficient,
    tokens: KnownTokenVector,
)
    ensures
        predicted(Seq::empty(), tokens, 0) == 0,
        predicted(coefficients.push(last), tokens, coefficients.len() as int + 1) == predicted(
            coefficients,
            tokens,
            coefficients.len() as int,
        ) + last.estimate_micro_ppm_per_token * match last.kind {
            TokenKind::Input => tokens.input,
            TokenKind::Output => tokens.output,
            TokenKind::CacheRead => tokens.cache_read,
            TokenKind::CacheWrite => tokens.cache_write,
        },
{
    lemma_predicted_prefix(
        coefficients,
        coefficients.push(last),
        tokens,
        coefficients.len() as int,
    );
}

/// The prediction for one class of each kind is the sum, over all four, of estimate times
/// tokens.
pub proof fn law_every_class_is_predicted(
    input: StoredKindCoefficient,
    output: StoredKindCoefficient,
    cache_read: StoredKindCoefficient,
    cache_write: StoredKindCoefficient,
    tokens: KnownTokenVector,
)
    requires
        input.kind == TokenKind::Input,
        output.kind == TokenKind::Output,
        cache_read.kind == TokenKind::CacheRead,
        cache_write.kind == TokenKind::CacheWrite,
    ensures
        predicted(seq![input, output, cache_read, cache_write], tokens, 4)
            == input.estimate_micro_ppm_per_token * tokens.input
            + output.estimate_micro_ppm_per_token * tokens.output
            + cache_read.estimate_micro_ppm_per_token * tokens.cache_read
            + cache_write.estimate_micro_ppm_per_token * tokens.cache_write,
{
    let none = Seq::<StoredKindCoefficient>::empty();
    let (one, two) = (none.push(input), none.push(input).push(output));
    let three = two.push(cache_read);
    law_predictions_add_up(none, input, tokens);
    law_predictions_add_up(one, output, tokens);
    law_predictions_add_up(two, cache_read, tokens);
    law_predictions_add_up(three, cache_write, tokens);
    assert(three.push(cache_write) =~= seq![input, output, cache_read, cache_write]);
    assert(predicted(none, tokens, 0) == 0);
}

/// A block is missed by the distance between what its tokens predict and what the meter
/// moved: by nothing exactly where the two are equal, and by a whole part per million for
/// each part per million between them, on either side.
pub proof fn law_a_block_is_missed_by_its_distance(
    coefficients: Seq<StoredKindCoefficient>,
    block: SettledBlock,
    ppm: int,
)
    requires
        2 * predicted(coefficients, block.tokens, coefficients.len() as int) == 1_000_000 * (
        block.twice_delta_ppm + 2 * ppm),
    ensures
        miss(coefficients, block) == if ppm < 0 {
            -2_000_000 * ppm
        } else {
            2_000_000 * ppm
        },
{
}

proof fn lemma_missed_prefix(
    coefficients: Seq<StoredKindCoefficient>,
    shorter: Seq<SettledBlock>,
    longer: Seq<SettledBlock>,
    n: int,
)
    requires
        n <= shorter.len(),
        n <= longer.len(),
        forall|i: int| 0 <= i < n ==> shorter[i] == #[trigger] longer[i],
    ensures
        missed(coefficients, shorter, n) == missed(coefficients, longer, n),
        fitted_blocks(coefficients, shorter, n) == fitted_blocks(coefficients, longer, n),
    decreases n,
{
    if n > 0 {
        lemma_missed_prefix(coefficients, shorter, longer, n - 1);
        assert(shorter[n - 1] == longer[n - 1]);
    }
}

/// Each block counts once: one more block adds its own miss and one to the number of
/// blocks where it holds tokens of a class with a coefficient, and nothing where not.
pub proof fn law_each_block_counts_once(
    coefficients: Seq<StoredKindCoefficient>,
    blocks: Seq<SettledBlock>,
    last: SettledBlock,
    at: int,
)
    requires
        0 <= at < coefficients.len(),
        last.tokens.count(coefficients[at].kind) > 0,
    ensures
        missed(coefficients, blocks.push(last), blocks.len() as int + 1) == missed(
            coefficients,
            blocks,
            blocks.len() as int,
        ) + miss(coefficients, last),
        fitted_blocks(coefficients, blocks.push(last), blocks.len() as int + 1) == fitted_blocks(
            coefficients,
            blocks,
            blocks.len() as int,
        ) + 1,
{
    lemma_missed_prefix(coefficients, blocks, blocks.push(last), blocks.len() as int);
    assert(holds_fitted(coefficients, last.tokens)) by {
        assert(last.tokens.count(coefficients[at].kind) > 0);
    }
}

/// A block without tokens of any class that has a coefficient changes no residual.
pub proof fn law_other_classes_change_no_residual(
    coefficients: Seq<StoredKindCoefficient>,
    blocks: Seq<SettledBlock>,
    last: SettledBlock,
)
    requires
        forall|i: int|
            0 <= i < coefficients.len() ==> last.tokens.count((#[trigger] coefficients[i]).kind)
                == 0,
    ensures
        mean_miss(coefficients, blocks.push(last)) == mean_miss(coefficients, blocks),
{
    lemma_missed_prefix(coefficients, blocks, blocks.push(last), blocks.len() as int);
    assert(!holds_fitted(coefficients, last.tokens));
}

proof fn lemma_misses_bound_their_sum(
    coefficients: Seq<StoredKindCoefficient>,
    blocks: Seq<SettledBlock>,
    least: int,
    most: int,
    n: int,
)
    requires
        0 <= n <= blocks.len(),
        forall|j: int|
            0 <= j < blocks.len() && holds_fitted(coefficients, (#[trigger] blocks[j]).tokens)
                ==> least <= miss(coefficients, blocks[j]) <= most,
    ensures
        least * fitted_blocks(coefficients, blocks, n) <= missed(coefficients, blocks, n) <= most
            * fitted_blocks(coefficients, blocks, n),
    decreases n,
{
    if n > 0 {
        lemma_misses_bound_their_sum(coefficients, blocks, least, most, n - 1);
        let before = fitted_blocks(coefficients, blocks, n - 1) as int;
        let block = blocks[n - 1];
        if holds_fitted(coefficients, block.tokens) {
            assert(least <= miss(coefficients, block) <= most);
            assert(least * (before + 1) == least * before + least && most * (before + 1) == most
                * before + most) by (nonlinear_arith);
            assert(fitted_blocks(coefficients, blocks, n) as int == before + 1);
        }
    } else {
        assert(least * 0 == 0 && most * 0 == 0) by (nonlinear_arith);
    }
}

/// The residual is a mean: where every block that holds a fitted class is missed by at
/// least some parts per million and by at most some others, so is the residual. Blocks
/// that are all missed by the same whole number have that number as their residual.
pub proof fn law_the_residual_is_a_mean(
    coefficients: Seq<StoredKindCoefficient>,
    blocks: Seq<SettledBlock>,
    least: int,
    most: int,
)
    requires
        fitted_blocks(coefficients, blocks, blocks.len() as int) > 0,
        forall|j: int|
            0 <= j < blocks.len() && holds_fitted(coefficients, (#[trigger] blocks[j]).tokens)
                ==> 2_000_000 * least <= miss(coefficients, blocks[j]) <= 2_000_000 * most,
    ensures
        least <= mean_miss(coefficients, blocks) <= most,
{
    let n = blocks.len() as int;
    lemma_misses_bound_their_sum(coefficients, blocks, 2_000_000 * least, 2_000_000 * most, n);
    let count = fitted_blocks(coefficients, blocks, n) as int;
    let total = missed(coefficients, blocks, n);
    let unit = 2_000_000 * count;
    let mean = (2 * total + unit) / (2 * unit);
    let rest = (2 * total + unit) % (2 * unit);
    vstd::arithmetic::div_mod::lemma_fundamental_div_mod(2 * total + unit, 2 * unit);
    assert(least <= mean <= most) by (nonlinear_arith)
        requires
            2 * total + unit == 2 * unit * mean + rest,
            0 <= rest < 2 * unit,
            unit == 2_000_000 * count,
            count > 0,
            (2_000_000 * least) * count <= total <= (2_000_000 * most) * count,
    ;
}

/// The residual is the nearest whole number to the quotient of what was missed by the
/// number of blocks: twice the distance between them is at most one block's worth.
pub proof fn law_the_residual_is_rounded_to_the_nearest(
    coefficients: Seq<StoredKindCoefficient>,
    blocks: Seq<SettledBlock>,
)
    requires
        fitted_blocks(coefficients, blocks, blocks.len() as int) > 0,
    ensures
        ({
            let count = fitted_blocks(coefficients, blocks, blocks.len() as int);
            let total = missed(coefficients, blocks, blocks.len() as int);
            let mean = mean_miss(coefficients, blocks);
            &&& 2_000_000 * (count * mean) - total <= 1_000_000 * count
            &&& total - 2_000_000 * (count * mean) < 1_000_000 * count
        }),
{
    let n = blocks.len() as int;
    let count = fitted_blocks(coefficients, blocks, n) as int;
    let total = missed(coefficients, blocks, n);
    let unit = 2_000_000 * count;
    let mean = (2 * total + unit) / (2 * unit);
    let rest = (2 * total + unit) % (2 * unit);
    vstd::arithmetic::div_mod::lemma_fundamental_div_mod(2 * total + unit, 2 * unit);
    assert(2 * unit * mean == 4_000_000 * (count * mean)) by (nonlinear_arith)
        requires
            unit == 2_000_000 * count,
    ;
}

/// A joint candidate goes on to validation exactly where it is known, the evidence it was
/// fitted from and some to hold it against are named and share nothing, it was fitted from
/// what is named and was not promoted before, its run is known, and every piece of
/// validation evidence has a reading.
pub proof fn law_joint_promotion_needs_every_condition(
    promotion: CandidatePromotion,
    evidence: MultivariatePromotionEvidence,
)
    ensures
        joint_promotion_error(promotion, evidence) is None <==> {
            &&& evidence.candidate is Some
            &&& promotion.training@.len() > 0
            &&& promotion.validation@.len() > 0
            &&& forall|id: Seq<char>|
                !(#[trigger] promotion.training@.contains(id) && promotion.validation@.contains(id))
            &&& evidence.candidate->0.inputs.count == promotion.training@.len()
            &&& evidence.candidate->0.inputs.digest == digest_of(promotion.training@)
            &&& evidence.recorded_as is None
            &&& evidence.run is Some
            &&& forall|id: Seq<char>| #[trigger]
                promotion.validation@.contains(id) ==> exists|i: int|
                    0 <= i < evidence.validation_readings@.len() && (
                    #[trigger] evidence.validation_readings@[i]).evidence_id@ == id
        },
{
    let validation = promotion.validation@;
    let readings = evidence.validation_readings@;
    law_disjoint_means_nothing_shared(promotion.training@, validation);
    let missing = unfound(validation, readings);
    if missing.len() == 0 {
        assert forall|id: Seq<char>| #[trigger] validation.contains(id) implies exists|i: int|
            0 <= i < readings.len() && (#[trigger] readings[i]).evidence_id@ == id by {
            law_unfound_evidence_has_no_reading(validation, readings, id);
            assert(!missing.contains(id));
        }
    } else {
        law_unfound_evidence_has_no_reading(validation, readings, missing[0]);
        assert(missing.contains(missing[0]));
        assert(validation.contains(missing[0]));
    }
}

/// A jointly promoted result records the coefficients and figures of its candidate, with
/// the evidence that was named and the mean miss over the blocks of the held-out readings.
pub proof fn law_joint_promotion_records_what_was_fitted(
    result: MultivariateCalibration,
    promotion: CandidatePromotion,
    evidence: MultivariatePromotionEvidence,
)
    requires
        jointly_promoted(result, promotion, evidence),
    ensures
        ({
            let candidate = evidence.candidate->0;
            &&& result.coefficients@ == candidate.coefficients@
            &&& result.condition_number.micros == candidate.condition_number.micros
            &&& result.condition_number_threshold.micros
                == candidate.condition_number_threshold.micros
            &&& result.fit_residual@ == candidate.fit_residual_ppm
            &&& result.id@ == evidence.result_id@
            &&& result.candidate@ == promotion.candidate_id@
            &&& result.experiment@ == candidate.experiment@
            &&& result.provider@ == candidate.provider@
            &&& result.plan_tier@ == candidate.plan_tier@
            &&& result.window_semantic_key@ == candidate.window_semantic_key@
            &&& result.validation_observations == evidence.validation_readings@.len()
            &&& result.sample_count == candidate.sample_count
            &&& result.inputs == candidate.inputs
            &&& result.fitting_evidence.value == digest_of(promotion.training@)
            &&& result.validation_evidence.value == digest_of(promotion.validation@)
            &&& result.validation_method@ == "held-out-block-residual"@
            &&& result.validation_version@ == "v1"@
            &&& result.statistical_method@ == candidate.statistical_method@
            &&& result.statistical_parameters@ == candidate.statistical_parameters@
            &&& result.phase_design@ == candidate.phase_design@
            &&& result.activation_policy_version@ == promotion.activation_policy_version@
            &&& result.aub_version@ == evidence.aub_version@
            &&& result.source_revision@ == evidence.source_revision@
            &&& result.validity == candidate.validity
            &&& result.fit_timestamp == candidate.knowledge_time
            &&& result.knowledge_time == evidence.now
            &&& exists|observations: Seq<FitObservation>, blocks: Seq<SettledBlock>|
                {
                    &&& #[trigger] all_unspent(evidence.validation_readings@, observations)
                    &&& #[trigger] blocks_over(
                        evidence.run->0.account@,
                        partition(observations).usable,
                        evidence.spent->Ok_0.usage@,
                        evidence.spent->Ok_0.markers@,
                        blocks,
                    )
                    &&& result.held_out_residual@ == mean_miss(candidate.coefficients@, blocks)
                    &&& mean_miss(candidate.coefficients@, blocks) <= 1_000_000
                }
        }),
{
}

/// Usage is needed from the first usable validation reading to the last.
pub proof fn law_validation_spans_its_usable_readings(
    validation: Seq<StoredFitObservation>,
    first: UtcTimestamp,
    last: UtcTimestamp,
) -> (observations: Seq<FitObservation>)
    requires
        spans(validation, first, last),
    ensures
        all_unspent(validation, observations),
        partition(observations).usable.len() > 0,
        first.nanos == partition(observations).usable[0].at.nanos,
        last.nanos == partition(observations).usable[partition(observations).usable.len()
            - 1].at.nanos,
        first.nanos <= last.nanos,
{
    let observations = choose|observations: Seq<FitObservation>| #[trigger]
        all_unspent(validation, observations) && partition(observations).usable.len() > 0 && first
            == partition(observations).usable.first().at && last == partition(
            observations,
        ).usable.last().at;
    law_usable_observations_advance(observations);
    let usable = partition(observations).usable;
    assert(usable[0].at.nanos <= usable[usable.len() - 1].at.nanos);
    observations
}

/// A quotient that is shown is the nearest whole number, and of two that are as near the
/// even one.
pub proof fn law_shown_quotients_are_nearest_and_even(total: int, unit: int)
    requires
        unit > 0,
    ensures
        -unit <= 2 * (total - unit * nearest_even(total, unit)) <= unit,
        2 * (total - unit * nearest_even(total, unit)) == unit || 2 * (unit * nearest_even(
            total,
            unit,
        ) - total) == unit ==> nearest_even(total, unit) % 2 == 0,
{
    let whole = total / unit;
    let rest = total % unit;
    vstd::arithmetic::div_mod::lemma_fundamental_div_mod(total, unit);
    assert(unit * (whole + 1) == unit * whole + unit) by (nonlinear_arith);
    assert(0 <= rest < unit);
}

proof fn lemma_predictions_are_bounded(
    coefficients: Seq<StoredKindCoefficient>,
    tokens: KnownTokenVector,
    most: int,
    n: int,
)
    requires
        0 <= n <= coefficients.len(),
        forall|i: int|
            0 <= i < coefficients.len() ==> -most <= (
            #[trigger] coefficients[i]).estimate_micro_ppm_per_token * tokens.count(
                coefficients[i].kind,
            ) <= most,
    ensures
        -(most * n) <= predicted(coefficients, tokens, n) <= most * n,
    decreases n,
{
    if n > 0 {
        lemma_predictions_are_bounded(coefficients, tokens, most, n - 1);
        let last = coefficients[n - 1];
        assert(-most <= last.estimate_micro_ppm_per_token * tokens.count(last.kind) <= most);
        assert(most * n == most * (n - 1) + most) by (nonlinear_arith);
    } else {
        assert(most * 0 == 0) by (nonlinear_arith);
    }
}

/// Ordinary misses can be held: those of at most four classes and a million blocks, where
/// no class moves a block by more than ten to the eighteenth parts per million, nor the
/// meter.
pub proof fn law_ordinary_misses_fit(
    coefficients: Seq<StoredKindCoefficient>,
    blocks: Seq<SettledBlock>,
)
    requires
        coefficients.len() <= 4,
        blocks.len() <= 1_000_000,
        forall|j: int, i: int|
            #![trigger blocks[j], coefficients[i]]
            0 <= j < blocks.len() && 0 <= i < coefficients.len()
                ==> -1_000_000_000_000_000_000_000_000
                <= coefficients[i].estimate_micro_ppm_per_token * blocks[j].tokens.count(
                coefficients[i].kind,
            ) <= 1_000_000_000_000_000_000_000_000,
        forall|j: int|
            0 <= j < blocks.len() ==> -1_000_000_000_000_000_000 <= (
            #[trigger] blocks[j]).twice_delta_ppm <= 1_000_000_000_000_000_000,
    ensures
        misses_fit(coefficients, blocks),
{
    let most: int = 1_000_000_000_000_000_000_000_000;
    assert forall|j: int| 0 <= j < blocks.len() implies miss_fits(coefficients, blocks[j]) && miss(
        coefficients,
        #[trigger] blocks[j],
    ) <= 9 * most by {
        let tokens = blocks[j].tokens;
        assert forall|i: int| 0 <= i < coefficients.len() implies -most <= (
        #[trigger] coefficients[i]).estimate_micro_ppm_per_token * tokens.count(
            coefficients[i].kind,
        ) <= most by {
            assert(blocks[j].tokens == tokens);
        }
        assert forall|m: int| 0 <= m <= coefficients.len() implies -4 * most
            <= #[trigger] predicted(coefficients, tokens, m) <= 4 * most by {
            lemma_predictions_are_bounded(coefficients, tokens, most, m);
            assert(most * m <= 4 * most) by (nonlinear_arith)
                requires
                    0 <= m <= 4,
                    most >= 0,
            ;
        }
        assert(-1_000_000_000_000_000_000 <= blocks[j].twice_delta_ppm);
        assert(-4 * most <= predicted(coefficients, tokens, coefficients.len() as int) <= 4
            * most);
    }
    let n = blocks.len() as int;
    lemma_misses_bound_their_sum(coefficients, blocks, 0, 9 * most, n);
    lemma_miss_is_not_negative(coefficients, blocks, 0, n);
    let count = fitted_blocks(coefficients, blocks, n) as int;
    assert((9 * most) * count <= 9 * most * 1_000_000) by (nonlinear_arith)
        requires
            0 <= count <= 1_000_000,
            most >= 0,
    ;
}

} // verus!
