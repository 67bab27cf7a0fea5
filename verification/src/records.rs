//! The rows a ledger keeps about calibration: experiments, candidates, results,
//! and the digests that tie them to their evidence.

use crate::calibration::settlement::SettlementPolicy;
use crate::domain::{
    Credits, CreditsPerPercentagePoint, MonotonicDuration, QuantizationSemantics, UtcTimestamp,
};
use crate::ids::{
    BillingSemanticsId, CandidateId, CostModelId, EvidenceId, ExperimentId, MeterSemanticsId,
    PlanTier, ProviderKey, WindowCalibrationId, WindowSemanticKey,
};
use crate::sets::{texts, TextSet};
use vstd::prelude::*;
use vstd::string::*;

verus! {

pub const DIGEST_SEED: u64 = 0xcbf2_9ce4_8422_2325;

pub const DIGEST_PRIME: u64 = 0x0000_0100_0000_01b3;

/// Mixed in after each identifier. No character has this code, so neighbouring
/// identifiers never run into each other.
pub const DIGEST_SEPARATOR: u64 = 0x11_0000;

/// One step of a digest.
pub open spec fn mixed(state: u64, code: u64) -> u64 {
    (state ^ code).wrapping_mul(DIGEST_PRIME)
}

/// A digest carried on over the characters of a text.
pub open spec fn digest_text(state: u64, text: Seq<char>) -> u64
    decreases text.len(),
{
    if text.len() == 0 {
        state
    } else {
        mixed(digest_text(state, text.drop_last()), text.last() as u64)
    }
}

/// The digest of some identifiers in order.
pub open spec fn digest_of(items: Seq<Seq<char>>) -> u64
    decreases items.len(),
{
    if items.len() == 0 {
        DIGEST_SEED
    } else {
        mixed(digest_text(digest_of(items.drop_last()), items.last()), DIGEST_SEPARATOR)
    }
}

fn mix(state: u64, code: u64) -> (next: u64)
    ensures
        next == mixed(state, code),
{
    (state ^ code).wrapping_mul(DIGEST_PRIME)
}

fn mix_text(state: u64, text: &str) -> (next: u64)
    ensures
        next == digest_text(state, text@),
{
    let len: usize = text.unicode_len();
    let mut next: u64 = state;
    let mut i: usize = 0;
    assert(text@.take(0) =~= Seq::empty());
    while i < len
        invariant
            i <= len,
            len == text@.len(),
            next == digest_text(state, text@.take(i as int)),
        decreases len - i,
    {
        assert(text@.take(i + 1).drop_last() =~= text@.take(i as int));
        let code: u32 = text.get_char(i) as u32;
        next = mix(next, code as u64);
        i = i + 1;
    }
    assert(text@.take(len as int) =~= text@);
    next
}

fn digest_items(items: &Vec<String>) -> (digest: u64)
    ensures
        digest == digest_of(texts(items@)),
{
    let mut digest: u64 = DIGEST_SEED;
    let mut i: usize = 0;
    assert(texts(items@).take(0) =~= Seq::empty());
    while i < items.len()
        invariant
            i <= items@.len(),
            digest == digest_of(texts(items@).take(i as int)),
        decreases items@.len() - i,
    {
        let ghost next = texts(items@).take(i + 1);
        assert(next.drop_last() =~= texts(items@).take(i as int));
        assert(next.last() == items@[i as int]@);
        digest = mix(mix_text(digest, items[i].as_str()), DIGEST_SEPARATOR);
        i = i + 1;
    }
    assert(texts(items@).take(items@.len() as int) =~= texts(items@));
    digest
}

/// Identifies a set of evidence by one number.
#[derive(Debug, Clone, Copy, PartialEq, Eq, Structural)]
pub struct EvidenceFingerprint {
    pub value: u64,
}

impl EvidenceFingerprint {
    /// The fingerprint of a set of evidence.
    pub open spec fn of(set: Seq<Seq<char>>) -> EvidenceFingerprint {
        EvidenceFingerprint { value: digest_of(set) }
    }

    pub fn from_inputs(set: &TextSet) -> (fingerprint: Self)
        ensures
            fingerprint == EvidenceFingerprint::of(set@),
    {
        EvidenceFingerprint { value: digest_items(set.items()) }
    }

    pub fn as_u64(self) -> (value: u64)
        ensures
            value == self.value,
    {
        self.value
    }
}

/// Identifies a set of evidence by its size and one number, so that a part of the
/// evidence does not pass for all of it.
#[derive(Debug, Clone, Copy, PartialEq, Eq, Structural)]
pub struct EvidenceDigest {
    pub count: usize,
    pub digest: u64,
}

impl EvidenceDigest {
    /// Whether a digest is that of a set of evidence.
    pub open spec fn describes(self, set: Seq<Seq<char>>) -> bool {
        self.count == set.len() && self.digest == digest_of(set)
    }

    pub fn from_inputs(set: &TextSet) -> (digest: Self)
        ensures
            digest.describes(set@),
    {
        EvidenceDigest { count: set.len(), digest: digest_items(set.items()) }
    }

    pub fn count(self) -> (count: usize)
        ensures
            count == self.count,
    {
        self.count
    }

    pub fn digest(self) -> (digest: u64)
        ensures
            digest == self.digest,
    {
        self.digest
    }
}

/// How badly conditioned a fit is, in millionths.
#[derive(Debug, Clone, Copy, PartialEq, Eq, PartialOrd, Ord, Hash, Structural)]
pub struct ConditionNumber {
    pub micros: i64,
}

impl ConditionNumber {
    pub fn from_micros(micros: i64) -> (number: Self)
        ensures
            number.micros == micros,
    {
        ConditionNumber { micros }
    }

    pub fn micros(self) -> (micros: i64)
        ensures
            micros == self.micros,
    {
        self.micros
    }
}

/// The range within which a fitted coefficient is believed to lie.
#[derive(Debug, Clone, Copy, PartialEq, Eq, Structural)]
pub struct CoefficientUncertainty {
    lower: CreditsPerPercentagePoint,
    upper: CreditsPerPercentagePoint,
}

impl CoefficientUncertainty {
    #[verifier::type_invariant]
    spec fn in_order(self) -> bool {
        self.lower.micros <= self.upper.micros
    }

    /// The least value of the coefficient.
    pub closed spec fn low(self) -> CreditsPerPercentagePoint {
        self.lower
    }

    /// The greatest value of the coefficient.
    pub closed spec fn high(self) -> CreditsPerPercentagePoint {
        self.upper
    }

    /// A range whose ends are in order.
    pub fn new(lower: CreditsPerPercentagePoint, upper: CreditsPerPercentagePoint) -> (range: Option<
        Self,
    >)
        ensures
            range is Some <==> lower.micros <= upper.micros,
            range matches Some(r) ==> r.low() == lower && r.high() == upper,
    {
        if lower.micros_per_point() <= upper.micros_per_point() {
            Some(CoefficientUncertainty { lower, upper })
        } else {
            None
        }
    }

    pub fn lower(self) -> (lower: CreditsPerPercentagePoint)
        ensures
            lower == self.low(),
            lower.micros <= self.high().micros,
    {
        proof {
            use_type_invariant(&self);
        }
        self.lower
    }

    pub fn upper(self) -> (upper: CreditsPerPercentagePoint)
        ensures
            upper == self.high(),
            self.low().micros <= upper.micros,
    {
        proof {
            use_type_invariant(&self);
        }
        self.upper
    }
}

/// A sample that a fit left out, and why.
#[derive(Debug, PartialEq, Eq)]
pub struct ExcludedSample {
    pub sample_ref: String,
    pub reason: String,
}

/// What an excluded sample says.
pub struct ExcludedView {
    pub sample_ref: Seq<char>,
    pub reason: Seq<char>,
}

impl View for ExcludedSample {
    type V = ExcludedView;

    open spec fn view(&self) -> ExcludedView {
        ExcludedView { sample_ref: self.sample_ref@, reason: self.reason@ }
    }
}

/// What excluded samples say.
pub open spec fn excluded_views(samples: Seq<ExcludedSample>) -> Seq<ExcludedView> {
    samples.map_values(|s: ExcludedSample| s@)
}

impl Clone for ExcludedSample {
    fn clone(&self) -> (copy: Self)
        ensures
            copy == *self,
    {
        ExcludedSample { sample_ref: self.sample_ref.clone(), reason: self.reason.clone() }
    }
}

impl ExcludedSample {
    /// A record of an exclusion; it needs a sample to name and a reason.
    pub fn new(sample_ref: &str, reason: &str) -> (sample: Option<Self>)
        ensures
            sample is Some <==> sample_ref@.len() > 0 && reason@.len() > 0,
            sample matches Some(s) ==> s.sample_ref@ == sample_ref@ && s.reason@ == reason@,
    {
        if sample_ref.is_empty() || reason.is_empty() {
            None
        } else {
            Some(ExcludedSample { sample_ref: sample_ref.to_owned(), reason: reason.to_owned() })
        }
    }
}

/// The time from which and until which something holds.
#[derive(Debug, Clone, Copy, PartialEq, Eq, Structural)]
pub struct ValidityInterval {
    from: UtcTimestamp,
    until: UtcTimestamp,
}

impl ValidityInterval {
    #[verifier::type_invariant]
    spec fn in_order(self) -> bool {
        self.from.nanos < self.until.nanos
    }

    /// When it begins to hold.
    pub closed spec fn start(self) -> UtcTimestamp {
        self.from
    }

    /// When it stops holding.
    pub closed spec fn end(self) -> UtcTimestamp {
        self.until
    }

    /// An interval that ends after it starts.
    pub fn new(from: UtcTimestamp, until: UtcTimestamp) -> (interval: Option<Self>)
        ensures
            interval is Some <==> from.nanos < until.nanos,
            interval matches Some(i) ==> i.start() == from && i.end() == until,
    {
        if from.unix_nanos() < until.unix_nanos() {
            Some(ValidityInterval { from, until })
        } else {
            None
        }
    }

    pub fn valid_from(self) -> (from: UtcTimestamp)
        ensures
            from == self.start(),
            from.nanos < self.end().nanos,
    {
        proof {
            use_type_invariant(&self);
        }
        self.from
    }

    pub fn valid_until(self) -> (until: UtcTimestamp)
        ensures
            until == self.end(),
            self.start().nanos < until.nanos,
    {
        proof {
            use_type_invariant(&self);
        }
        self.until
    }
}

/// A recorded experiment.
#[derive(Debug, PartialEq, Eq)]
pub struct CalibrationExperiment {
    pub id: ExperimentId,
    pub provider: ProviderKey,
    pub plan_tier: PlanTier,
    pub window_semantic_key: WindowSemanticKey,
    pub meter_semantics_id: MeterSemanticsId,
    pub billing_semantics_id: BillingSemanticsId,
    pub settlement_policy: SettlementPolicy,
    pub validity: ValidityInterval,
    pub knowledge_time: UtcTimestamp,
}

/// A fitted coefficient that nothing has validated yet.
#[derive(Debug, PartialEq, Eq)]
pub struct WindowCalibrationCandidate {
    pub id: CandidateId,
    pub experiment: ExperimentId,
    pub provider: ProviderKey,
    pub plan_tier: PlanTier,
    pub window_semantic_key: WindowSemanticKey,
    pub fitted: CreditsPerPercentagePoint,
    pub equivalent_full_window_capacity: Credits,
    pub fit_residual: Credits,
    pub uncertainty: CoefficientUncertainty,
    pub sample_count: u32,
    pub inputs: EvidenceDigest,
    pub validity: ValidityInterval,
    pub knowledge_time: UtcTimestamp,
}

/// A recorded result: a fitted coefficient with its validation.
#[derive(Debug, PartialEq, Eq)]
pub struct WindowCalibration {
    pub id: WindowCalibrationId,
    pub provider: ProviderKey,
    pub plan_tier: PlanTier,
    pub window_semantic_key: WindowSemanticKey,
    pub meter_semantics_id: MeterSemanticsId,
    pub billing_semantics_id: BillingSemanticsId,
    pub cost_model_id: CostModelId,
    pub fitted: CreditsPerPercentagePoint,
    pub equivalent_full_window_capacity: Credits,
    pub fit_residual: Credits,
    pub uncertainty: CoefficientUncertainty,
    pub lag_estimate: Option<MonotonicDuration>,
    pub lag_handling: String,
    pub sample_count: u32,
    pub fit_timestamp: UtcTimestamp,
    pub inputs: EvidenceDigest,
    pub fitting_evidence: EvidenceFingerprint,
    pub validation_evidence: EvidenceFingerprint,
    pub validation_method: String,
    pub validation_version: String,
    pub out_of_sample_residual: Option<Credits>,
    pub statistical_method: String,
    pub statistical_parameters: String,
    pub condition_number: Option<ConditionNumber>,
    pub observation_coverage_requirement: String,
    pub settling_policy: String,
    pub excluded_samples: Vec<ExcludedSample>,
    pub activation_policy_version: String,
    pub aub_version: String,
    pub source_revision: String,
    pub validity: ValidityInterval,
    pub knowledge_time: UtcTimestamp,
}

/// One component row of a usage event: how many tokens of one class it took.
#[derive(Debug, PartialEq, Eq)]
pub struct StoredUsageEvent {
    pub canonical_event_id: String,
    pub timestamp: UtcTimestamp,
    pub model_id: Option<String>,
    pub token_class: String,
    pub count: u64,
    /// The session the event belongs to: its source and its native name.
    pub session: Option<(String, String)>,
}

impl Clone for StoredUsageEvent {
    fn clone(&self) -> (copy: Self)
        ensures
            copy == *self,
    {
        StoredUsageEvent {
            canonical_event_id: self.canonical_event_id.clone(),
            timestamp: self.timestamp,
            model_id: match &self.model_id {
                Some(model) => Some(model.clone()),
                None => None,
            },
            token_class: self.token_class.clone(),
            count: self.count,
            session: match &self.session {
                Some(session) => Some((session.0.clone(), session.1.clone())),
                None => None,
            },
        }
    }
}

/// A recorded meter reading.
#[derive(Debug, Clone, PartialEq, Eq)]
pub struct StoredFitObservation {
    pub evidence_id: EvidenceId,
    pub at: UtcTimestamp,
    pub quota_used_ppm: i64,
    pub reported_resolution_ppm: i64,
    pub quantization: QuantizationSemantics,
}

/// Mixing loses nothing: what was mixed can be told from the result and either part.
proof fn lemma_mixing_loses_nothing(a: u64, b: u64, c: u64, d: u64)
    ensures
        mixed(a, c) == mixed(b, c) ==> a == b,
        mixed(a, c) == mixed(a, d) ==> c == d,
{
    lemma_prime_is_invertible(a ^ c);
    lemma_prime_is_invertible(b ^ c);
    lemma_prime_is_invertible(a ^ d);
    assert(a ^ c == b ^ c ==> a == b) by (bit_vector);
    assert(a ^ c == a ^ d ==> c == d) by (bit_vector);
}

/// Multiplying by the prime can be undone.
proof fn lemma_prime_is_invertible(x: u64)
    ensures
        x == (x.wrapping_mul(DIGEST_PRIME) * 0xce96_5057_aff6_957b) % 0x1_0000_0000_0000_0000,
{
    let prime: int = 0x100_0000_01b3;
    let inverse: int = 0xce96_5057_aff6_957b;
    let limit: int = 0x1_0000_0000_0000_0000;
    let product = x * prime;
    assert(x.wrapping_mul(DIGEST_PRIME) == product % limit);
    vstd::arithmetic::div_mod::lemma_mul_mod_noop_left(product, inverse, limit);
    assert(product * inverse == x * (prime * inverse)) by (nonlinear_arith)
        requires
            product == x * prime,
    ;
    assert((prime * inverse) % limit == 1);
    vstd::arithmetic::div_mod::lemma_mul_mod_noop_right(x as int, prime * inverse, limit);
}

proof fn lemma_digest_text_keeps_apart(a: u64, b: u64, text: Seq<char>)
    requires
        a != b,
    ensures
        digest_text(a, text) != digest_text(b, text),
    decreases text.len(),
{
    if text.len() > 0 {
        let shorter = text.drop_last();
        lemma_digest_text_keeps_apart(a, b, shorter);
        lemma_mixing_loses_nothing(
            digest_text(a, shorter),
            digest_text(b, shorter),
            text.last() as u64,
            0,
        );
    }
}

proof fn lemma_changed_text(
    state: u64,
    before: Seq<char>,
    left: char,
    right: char,
    after: Seq<char>,
)
    requires
        left != right,
    ensures
        digest_text(state, before + seq![left] + after) != digest_text(
            state,
            before + seq![right] + after,
        ),
    decreases after.len(),
{
    let a = before + seq![left] + after;
    let b = before + seq![right] + after;
    if after.len() > 0 {
        lemma_changed_text(state, before, left, right, after.drop_last());
        assert(a.drop_last() =~= before + seq![left] + after.drop_last());
        assert(b.drop_last() =~= before + seq![right] + after.drop_last());
        lemma_mixing_loses_nothing(
            digest_text(state, a.drop_last()),
            digest_text(state, b.drop_last()),
            after.last() as u64,
            0,
        );
    } else {
        assert(a.drop_last() =~= before && b.drop_last() =~= before);
        assert(left as u64 != right as u64);
        lemma_mixing_loses_nothing(
            digest_text(state, before),
            0,
            left as u64,
            right as u64,
        );
    }
}

/// A set of evidence is told from one in which a single character of a single identifier
/// was changed, wherever it stands.
pub proof fn law_a_changed_identifier_changes_the_digest(
    front: Seq<Seq<char>>,
    before: Seq<char>,
    left: char,
    right: char,
    after: Seq<char>,
    rest: Seq<Seq<char>>,
)
    requires
        left != right,
    ensures
        digest_of(front + seq![before + seq![left] + after] + rest) != digest_of(
            front + seq![before + seq![right] + after] + rest,
        ),
        EvidenceFingerprint::of(front + seq![before + seq![left] + after] + rest)
            != EvidenceFingerprint::of(front + seq![before + seq![right] + after] + rest),
    decreases rest.len(),
{
    let x = before + seq![left] + after;
    let y = before + seq![right] + after;
    let a = front + seq![x] + rest;
    let b = front + seq![y] + rest;
    if rest.len() > 0 {
        law_a_changed_identifier_changes_the_digest(
            front,
            before,
            left,
            right,
            after,
            rest.drop_last(),
        );
        assert(a.drop_last() =~= front + seq![x] + rest.drop_last());
        assert(b.drop_last() =~= front + seq![y] + rest.drop_last());
        let (c, d) = (digest_of(a.drop_last()), digest_of(b.drop_last()));
        lemma_digest_text_keeps_apart(c, d, rest.last());
        lemma_mixing_loses_nothing(
            digest_text(c, rest.last()),
            digest_text(d, rest.last()),
            DIGEST_SEPARATOR,
            0,
        );
    } else {
        assert(a.drop_last() =~= front && b.drop_last() =~= front);
        assert(a.last() == x && b.last() == y);
        let state = digest_of(front);
        lemma_changed_text(state, before, left, right, after);
        lemma_mixing_loses_nothing(
            digest_text(state, x),
            digest_text(state, y),
            DIGEST_SEPARATOR,
            0,
        );
    }
}

/// A digest counts what it was made of and has its fingerprint; two sets that it describes
/// are alike in both.
pub proof fn law_a_digest_describes_its_set(
    digest: EvidenceDigest,
    set: Seq<Seq<char>>,
    other: Seq<Seq<char>>,
)
    requires
        digest.describes(set),
    ensures
        digest.count == set.len(),
        digest.digest == EvidenceFingerprint::of(set).value,
        digest.describes(other) ==> other.len() == set.len() && EvidenceFingerprint::of(other)
            == EvidenceFingerprint::of(set),
        digest_of(Seq::empty()) == 0xcbf2_9ce4_8422_2325,
{
}

} // verus!
