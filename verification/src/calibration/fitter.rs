//! Fitting a calibration candidate from quantized provider readings.
//!
//! A reading is an interval, not a point: 41 percent rounded to the nearest percent
//! may be anything within half a percent of it. This module derives those intervals,
//! decides which readings a fit may use, folds usage into credits, and turns the
//! estimate of a regression into an immutable candidate or a promoted result. It
//! never activates one.

use crate::domain::{
    Credits, CreditsPerPercentagePoint, QuantizationSemantics, TokenKind, UtcTimestamp,
};
use crate::error::{Error, ErrorView};
use crate::ids::{CandidateId, EvidenceId};
use crate::order::{
    arranged, lemma_placed_by_insertion, lemma_stable_order, placed, positions, stable_order,
    total_preorder,
};
use crate::records::{
    excluded_views, CalibrationExperiment, CoefficientUncertainty, EvidenceDigest, ExcludedSample,
    ExcludedView, WindowCalibrationCandidate,
};
use crate::sets::{lemma_ordered_set, ordered_set, TextSet};
use crate::text::{
    comes_before, decimal, decimal_text, hex16, hexadecimal, lemma_text_order_total,
    lemma_text_order_transitive, signed_decimal, signed_decimal_text, text_before,
};
use vstd::prelude::*;
use vstd::string::*;

verus! {

/// The values a reading may stand for, in parts per million of the window.
#[derive(Debug, Clone, Copy, PartialEq, Eq, Structural)]
pub struct AdmissibleInterval {
    pub lower_ppm: i64,
    pub upper_ppm: i64,
}

/// Half of a number, rounded towards zero.
pub open spec fn half_towards_zero(n: int) -> int {
    if n >= 0 {
        n / 2
    } else {
        -((-n) / 2)
    }
}

/// The lowest value a reading may stand for.
pub open spec fn lowest(reading: int, resolution: int, quantization: QuantizationSemantics) -> int {
    match quantization {
        QuantizationSemantics::Exact => reading,
        QuantizationSemantics::RoundedToNearest => reading - half_towards_zero(resolution),
        QuantizationSemantics::RoundedDown => reading,
        QuantizationSemantics::RoundedUp => reading - resolution,
        QuantizationSemantics::Unknown => reading - resolution,
    }
}

/// The highest value a reading may stand for.
pub open spec fn highest(reading: int, resolution: int, quantization: QuantizationSemantics) -> int {
    match quantization {
        QuantizationSemantics::Exact => reading,
        QuantizationSemantics::RoundedToNearest => reading + (resolution - half_towards_zero(
            resolution,
        )),
        QuantizationSemantics::RoundedDown => reading + resolution,
        QuantizationSemantics::RoundedUp => reading,
        QuantizationSemantics::Unknown => reading + resolution,
    }
}

/// Whether both ends of an interval are representable.
pub open spec fn representable(
    reading: int,
    resolution: int,
    quantization: QuantizationSemantics,
) -> bool {
    &&& i64::MIN <= lowest(reading, resolution, quantization) <= i64::MAX
    &&& i64::MIN <= highest(reading, resolution, quantization) <= i64::MAX
}

impl AdmissibleInterval {
    fn ends(reading_ppm: i64, resolution_ppm: i64, quantization: QuantizationSemantics) -> (ends: (
        i128,
        i128,
    ))
        ensures
            ends.0 == lowest(reading_ppm as int, resolution_ppm as int, quantization),
            ends.1 == highest(reading_ppm as int, resolution_ppm as int, quantization),
            -0x2_0000_0000_0000_0000 <= ends.0 <= 0x2_0000_0000_0000_0000,
            -0x2_0000_0000_0000_0000 <= ends.1 <= 0x2_0000_0000_0000_0000,
    {
        let reading: i128 = reading_ppm as i128;
        let resolution: i128 = resolution_ppm as i128;
        match quantization {
            QuantizationSemantics::Exact => (reading, reading),
            QuantizationSemantics::RoundedToNearest => {
                let below: i128 = if resolution >= 0 {
                    resolution / 2
                } else {
                    -((-resolution) / 2)
                };
                (reading - below, reading + (resolution - below))
            },
            QuantizationSemantics::RoundedDown => (reading, reading + resolution),
            QuantizationSemantics::RoundedUp => (reading - resolution, reading),
            QuantizationSemantics::Unknown => (reading - resolution, reading + resolution),
        }
    }

    /// Derives the interval from a reading, its resolution, and how it was rounded.
    pub fn from_reading(
        reading_ppm: i64,
        resolution_ppm: i64,
        quantization: QuantizationSemantics,
    ) -> (interval: Self)
        requires
            representable(reading_ppm as int, resolution_ppm as int, quantization),
        ensures
            interval.lower_ppm == lowest(reading_ppm as int, resolution_ppm as int, quantization),
            interval.upper_ppm == highest(reading_ppm as int, resolution_ppm as int, quantization),
    {
        let ends: (i128, i128) = Self::ends(reading_ppm, resolution_ppm, quantization);
        AdmissibleInterval { lower_ppm: ends.0 as i64, upper_ppm: ends.1 as i64 }
    }

    pub fn lower_ppm(self) -> (ppm: i64)
        ensures
            ppm == self.lower_ppm,
    {
        self.lower_ppm
    }

    pub fn upper_ppm(self) -> (ppm: i64)
        ensures
            ppm == self.upper_ppm,
    {
        self.upper_ppm
    }
}

/// An interval holds its reading, is no wider than twice the resolution, and is the
/// reading itself where the provider does not round.
pub proof fn law_interval_holds_its_reading(
    reading: int,
    resolution: int,
    quantization: QuantizationSemantics,
)
    requires
        resolution >= 0,
    ensures
        lowest(reading, resolution, quantization) <= reading <= highest(
            reading,
            resolution,
            quantization,
        ),
        highest(reading, resolution, quantization) - lowest(reading, resolution, quantization) <= 2
            * resolution,
        quantization is Exact ==> lowest(reading, resolution, quantization) == highest(
            reading,
            resolution,
            quantization,
        ),
        quantization is RoundedToNearest || quantization is RoundedDown || quantization is RoundedUp
            ==> highest(reading, resolution, quantization) - lowest(
            reading,
            resolution,
            quantization,
        ) == resolution,
{
}

/// One reading entering a fit, with the credits spent up to it.
#[derive(Debug, PartialEq, Eq)]
pub struct FitObservation {
    pub evidence_id: EvidenceId,
    pub at: UtcTimestamp,
    pub quota_used_ppm: i64,
    pub reported_resolution_ppm: i64,
    pub quantization: QuantizationSemantics,
    pub cumulative_credits: Credits,
}

impl Clone for FitObservation {
    fn clone(&self) -> (copy: Self)
        ensures
            copy == *self,
    {
        FitObservation {
            evidence_id: self.evidence_id.clone(),
            at: self.at,
            quota_used_ppm: self.quota_used_ppm,
            reported_resolution_ppm: self.reported_resolution_ppm,
            quantization: self.quantization,
            cumulative_credits: self.cumulative_credits,
        }
    }
}

impl FitObservation {
    /// The lowest value the reading may stand for.
    pub open spec fn low(self) -> int {
        lowest(
            self.quota_used_ppm as int,
            self.reported_resolution_ppm as int,
            self.quantization,
        )
    }

    /// The highest value the reading may stand for.
    pub open spec fn high(self) -> int {
        highest(
            self.quota_used_ppm as int,
            self.reported_resolution_ppm as int,
            self.quantization,
        )
    }

    /// Whether the interval of the reading is representable.
    pub open spec fn has_interval(self) -> bool {
        representable(
            self.quota_used_ppm as int,
            self.reported_resolution_ppm as int,
            self.quantization,
        )
    }

    pub fn new(
        evidence_id: EvidenceId,
        at: UtcTimestamp,
        quota_used_ppm: i64,
        reported_resolution_ppm: i64,
        quantization: QuantizationSemantics,
        cumulative_credits: Credits,
    ) -> (observation: Self)
        ensures
            observation.evidence_id == evidence_id,
            observation.at == at,
            observation.quota_used_ppm == quota_used_ppm,
            observation.reported_resolution_ppm == reported_resolution_ppm,
            observation.quantization == quantization,
            observation.cumulative_credits == cumulative_credits,
    {
        FitObservation {
            evidence_id,
            at,
            quota_used_ppm,
            reported_resolution_ppm,
            quantization,
            cumulative_credits,
        }
    }

    /// Whether the interval of the reading is representable.
    pub fn interval_fits(&self) -> (fits: bool)
        ensures
            fits == self.has_interval(),
    {
        let ends: (i128, i128) = AdmissibleInterval::ends(
            self.quota_used_ppm,
            self.reported_resolution_ppm,
            self.quantization,
        );
        let least: i128 = i64::MIN as i128;
        let most: i128 = i64::MAX as i128;
        least <= ends.0 && ends.0 <= most && least <= ends.1 && ends.1 <= most
    }

    /// Twice the midpoint of the interval of the reading.
    pub fn twice_midpoint(&self) -> (twice: i128)
        ensures
            twice == self.low() + self.high(),
            -0x8_0000_0000_0000_0000 <= twice <= 0x8_0000_0000_0000_0000,
    {
        let ends: (i128, i128) = AdmissibleInterval::ends(
            self.quota_used_ppm,
            self.reported_resolution_ppm,
            self.quantization,
        );
        ends.0 + ends.1
    }

    /// The interval of the reading.
    pub fn interval(&self) -> (interval: AdmissibleInterval)
        requires
            self.has_interval(),
        ensures
            interval.lower_ppm == self.low(),
            interval.upper_ppm == self.high(),
    {
        AdmissibleInterval::from_reading(
            self.quota_used_ppm,
            self.reported_resolution_ppm,
            self.quantization,
        )
    }
}

/// Whether one observation comes no later than another: earlier in time, or at the
/// same time under an identifier that is not greater.
pub open spec fn precedes(observations: Seq<FitObservation>) -> spec_fn(int, int) -> bool {
    |a: int, b: int|
        observations[a].at.nanos < observations[b].at.nanos || (observations[a].at.nanos
            == observations[b].at.nanos && !text_before(
            observations[b].evidence_id@,
            observations[a].evidence_id@,
        ))
}

/// The positions of some observations in the order of time and identifier.
pub open spec fn time_order(observations: Seq<FitObservation>) -> Seq<int> {
    stable_order(observations.len(), |i: int| true, precedes(observations))
}

proof fn lemma_precedes_is_total(observations: Seq<FitObservation>)
    ensures
        total_preorder(precedes(observations)),
{
    let leq = precedes(observations);
    assert forall|a: int, b: int| #[trigger] leq(a, b) || leq(b, a) by {
        lemma_text_order_total(observations[a].evidence_id@, observations[b].evidence_id@);
    }
    assert forall|a: int, b: int, c: int| #[trigger] leq(a, b) && #[trigger] leq(b, c) implies leq(
        a,
        c,
    ) by {
        let x = observations[a].evidence_id@;
        let y = observations[b].evidence_id@;
        let z = observations[c].evidence_id@;
        lemma_text_order_total(x, y);
        lemma_text_order_total(y, z);
        if observations[a].at.nanos == observations[b].at.nanos && observations[b].at.nanos
            == observations[c].at.nanos && text_before(z, x) {
            if x == y {
            } else {
                lemma_text_order_transitive(z, x, y);
            }
        }
    }
}

/// Arranges observations by time and identifier, as positions.
pub fn in_time_order(observations: &Vec<FitObservation>) -> (order: Vec<usize>)
    ensures
        positions(order@) == time_order(observations@),
        order@.len() == observations@.len(),
        forall|k: int| 0 <= k < order@.len() ==> #[trigger] order@[k] < observations@.len(),
{
    let ghost keep = |i: int| true;
    let ghost leq = precedes(observations@);
    let mut order: Vec<usize> = Vec::new();
    let mut i: usize = 0;
    assert(positions(order@) =~= Seq::empty());
    while i < observations.len()
        invariant
            i <= observations@.len(),
            keep == (|i: int| true),
            leq == precedes(observations@),
            positions(order@) == stable_order(i as nat, keep, leq),
            order@.len() == i,
            forall|k: int| 0 <= k < order@.len() ==> #[trigger] order@[k] < i,
        decreases observations@.len() - i,
    {
        let item: &FitObservation = &observations[i];
        let mut slot: usize = order.len();
        let mut looking: bool = true;
        while looking && slot > 0
            invariant
                slot <= order@.len(),
                i < observations@.len(),
                *item == observations@[i as int],
                leq == precedes(observations@),
                forall|k: int| 0 <= k < order@.len() ==> #[trigger] order@[k] < i,
                forall|k: int|
                    slot <= k < order@.len() ==> !leq(#[trigger] positions(order@)[k], i as int),
                !looking ==> slot > 0 && leq(positions(order@)[slot - 1], i as int),
            decreases slot + (if looking {
                1int
            } else {
                0int
            }),
        {
            let other: &FitObservation = &observations[order[slot - 1]];
            let later: bool = other.at.unix_nanos() > item.at.unix_nanos() || (
            other.at.unix_nanos() == item.at.unix_nanos() && comes_before(
                item.evidence_id.as_str(),
                other.evidence_id.as_str(),
            ));
            if later {
                slot = slot - 1;
            } else {
                looking = false;
            }
        }
        proof {
            lemma_placed_by_insertion(positions(order@), i as int, leq, slot as int);
            assert(positions(order@.insert(slot as int, i)) =~= positions(order@).insert(
                slot as int,
                i as int,
            ));
        }
        order.insert(slot, i);
        i = i + 1;
    }
    order
}

/// Observations sorted into those a fit may use and those it may not.
pub struct Partition {
    pub usable: Seq<FitObservation>,
    pub excluded: Seq<ExcludedView>,
    pub after_reset: bool,
}

/// A list with one more exclusion, where the sample has a name to record it under.
pub open spec fn with_exclusion(
    excluded: Seq<ExcludedView>,
    sample_ref: Seq<char>,
    reason: Seq<char>,
) -> Seq<ExcludedView> {
    if sample_ref.len() > 0 {
        excluded.push(ExcludedView { sample_ref, reason })
    } else {
        excluded
    }
}

/// The partition after one more observation.
///
/// Everything after a reset is left out. So is a second reading of the same moment,
/// and a reading that lies further below the last usable one than its resolution,
/// which is the reset itself.
pub open spec fn partition_step(before: Partition, next: FitObservation) -> Partition {
    let id = next.evidence_id@;
    if before.after_reset {
        Partition {
            excluded: with_exclusion(
                before.excluded,
                id,
                "excluded: follows quota reset crossing"@,
            ),
            ..before
        }
    } else if before.usable.len() > 0 && next.at == before.usable.last().at {
        Partition {
            excluded: with_exclusion(before.excluded, id, "excluded: duplicate timestamp"@),
            ..before
        }
    } else if before.usable.len() > 0 && next.quota_used_ppm < before.usable.last().quota_used_ppm
        - next.reported_resolution_ppm {
        Partition {
            excluded: with_exclusion(
                before.excluded,
                id,
                "excluded: quota reset crossing detected"@,
            ),
            after_reset: true,
            ..before
        }
    } else {
        Partition { usable: before.usable.push(next), ..before }
    }
}

/// The partition of the first `n` observations in an order.
pub open spec fn partition_up_to(observations: Seq<FitObservation>, order: Seq<int>, n: int) -> Partition
    decreases n,
{
    if n <= 0 {
        Partition { usable: Seq::empty(), excluded: Seq::empty(), after_reset: false }
    } else {
        partition_step(
            partition_up_to(observations, order, n - 1),
            observations[order[n - 1]],
        )
    }
}

/// The partition of some observations, taken in order of time.
pub open spec fn partition(observations: Seq<FitObservation>) -> Partition {
    partition_up_to(observations, time_order(observations), observations.len() as int)
}

fn exclude(samples: &mut Vec<ExcludedSample>, id: &EvidenceId, reason: &str)
    requires
        reason@.len() > 0,
    ensures
        excluded_views(final(samples)@) == with_exclusion(
            excluded_views(old(samples)@),
            id@,
            reason@,
        ),
{
    let ghost before = samples@;
    match ExcludedSample::new(id.as_str(), reason) {
        Some(sample) => {
            samples.push(sample);
            assert(excluded_views(samples@) =~= excluded_views(before).push(sample@));
        },
        None => {},
    }
}

/// Takes observations in order of time and leaves out those no fit may use, each with
/// its reason.
pub fn partition_usable_observations(observations: &Vec<FitObservation>) -> (parts: (
    Vec<FitObservation>,
    Vec<ExcludedSample>,
))
    ensures
        parts.0@ == partition(observations@).usable,
        excluded_views(parts.1@) == partition(observations@).excluded,
{
    let order: Vec<usize> = in_time_order(observations);
    let ghost chronological = positions(order@);
    let mut usable: Vec<FitObservation> = Vec::new();
    let mut excluded: Vec<ExcludedSample> = Vec::new();
    let mut after_reset: bool = false;
    let mut k: usize = 0;
    assert(excluded_views(excluded@) =~= Seq::empty());
    proof {
        lemma_precedes_is_total(observations@);
        lemma_stable_order(observations@.len(), |i: int| true, precedes(observations@));
        reveal_strlit("excluded: follows quota reset crossing");
        reveal_strlit("excluded: duplicate timestamp");
        reveal_strlit("excluded: quota reset crossing detected");
    }
    while k < order.len()
        invariant
            k <= order@.len(),
            order@.len() == observations@.len(),
            chronological == positions(order@),
            chronological == time_order(observations@),
            "excluded: follows quota reset crossing"@.len() > 0,
            "excluded: duplicate timestamp"@.len() > 0,
            "excluded: quota reset crossing detected"@.len() > 0,
            forall|k: int| 0 <= k < order@.len() ==> #[trigger] order@[k] < observations@.len(),
            ({
                let so_far = partition_up_to(observations@, chronological, k as int);
                &&& usable@ == so_far.usable
                &&& excluded_views(excluded@) == so_far.excluded
                &&& after_reset == so_far.after_reset
            }),
        decreases order@.len() - k,
    {
        let next: &FitObservation = &observations[order[k]];
        assert(*next == observations@[chronological[k as int]]);
        if after_reset {
            exclude(&mut excluded, &next.evidence_id, "excluded: follows quota reset crossing");
        } else if usable.len() > 0 && usable[usable.len() - 1].at == next.at {
            exclude(&mut excluded, &next.evidence_id, "excluded: duplicate timestamp");
        } else if usable.len() > 0 && (next.quota_used_ppm as i128) < usable[usable.len()
            - 1].quota_used_ppm as i128 - next.reported_resolution_ppm as i128 {
            after_reset = true;
            exclude(&mut excluded, &next.evidence_id, "excluded: quota reset crossing detected");
        } else {
            usable.push(next.clone());
        }
        k = k + 1;
    }
    (usable, excluded)
}

/// Whether observations advance strictly in time.
pub open spec fn advancing(observations: Seq<FitObservation>) -> bool {
    forall|i: int, j: int|
        #![trigger observations[i], observations[j]]
        0 <= i < j < observations.len() ==> observations[i].at.nanos < observations[j].at.nanos
}

/// Whether an observation lies no further below the one before than its resolution.
pub open spec fn holds_up(observations: Seq<FitObservation>, i: int) -> bool {
    observations[i].quota_used_ppm >= observations[i - 1].quota_used_ppm
        - observations[i].reported_resolution_ppm
}

/// Whether no observation falls further than its resolution below the one before.
pub open spec fn never_falling(observations: Seq<FitObservation>) -> bool {
    forall|i: int| 0 < i < observations.len() ==> #[trigger] holds_up(observations, i)
}

/// Whether an observation is among the first `n` of an order.
spec fn taken(
    observation: FitObservation,
    observations: Seq<FitObservation>,
    order: Seq<int>,
    n: int,
) -> bool {
    exists|k: int| 0 <= k < n && observation == observations[#[trigger] order[k]]
}

/// Whether every one of the first `n` observations of an order has an identifier.
spec fn identified(observations: Seq<FitObservation>, order: Seq<int>, n: int) -> bool {
    forall|k: int| 0 <= k < n ==> observations[#[trigger] order[k]].evidence_id@.len() > 0
}

proof fn lemma_partition(observations: Seq<FitObservation>, order: Seq<int>, n: int)
    requires
        0 <= n <= order.len(),
        arranged(order, precedes(observations)),
    ensures
        advancing(partition_up_to(observations, order, n).usable),
        never_falling(partition_up_to(observations, order, n).usable),
        forall|i: int|
            0 <= i < partition_up_to(observations, order, n).usable.len() ==> taken(
                #[trigger] partition_up_to(observations, order, n).usable[i],
                observations,
                order,
                n,
            ),
        identified(observations, order, n) ==> partition_up_to(observations, order, n).usable.len()
            + partition_up_to(observations, order, n).excluded.len() == n,
    decreases n,
{
    if n > 0 {
        let before = partition_up_to(observations, order, n - 1);
        let parts = partition_up_to(observations, order, n);
        let next = observations[order[n - 1]];
        lemma_partition(observations, order, n - 1);
        assert(parts == partition_step(before, next));
        if identified(observations, order, n) {
            assert(observations[order[n - 1]].evidence_id@.len() > 0);
            assert(identified(observations, order, n - 1));
        }
        assert forall|i: int| 0 <= i < before.usable.len() implies taken(
            #[trigger] before.usable[i],
            observations,
            order,
            n,
        ) by {
            assert(taken(before.usable[i], observations, order, n - 1));
        }
        assert(taken(next, observations, order, n));
        if parts.usable.len() > before.usable.len() {
            assert(parts.usable == before.usable.push(next));
            if before.usable.len() > 0 {
                let last = before.usable.len() - 1;
                assert(taken(before.usable[last], observations, order, n - 1));
                let k = choose|k: int|
                    0 <= k < n - 1 && before.usable[last] == observations[#[trigger] order[k]];
                let leq = precedes(observations);
                assert(leq(order[k], order[n - 1]));
                assert(before.usable[last].at.nanos < next.at.nanos);
            }
            lemma_pushed(before.usable, next);
        } else {
            assert(parts.usable == before.usable);
        }
    }
}

proof fn lemma_pushed(usable: Seq<FitObservation>, next: FitObservation)
    requires
        advancing(usable),
        never_falling(usable),
        usable.len() > 0 ==> usable.last().at.nanos < next.at.nanos && next.quota_used_ppm
            >= usable.last().quota_used_ppm - next.reported_resolution_ppm,
    ensures
        advancing(usable.push(next)),
        never_falling(usable.push(next)),
{
    let longer = usable.push(next);
    assert forall|i: int, j: int|
        #![trigger longer[i], longer[j]]
        0 <= i < j < longer.len() implies longer[i].at.nanos < longer[j].at.nanos by {
        if j == usable.len() {
            let last = usable.len() - 1;
            if i < last {
                assert(usable[i].at.nanos < usable[last].at.nanos);
            }
        } else {
            assert(usable[i].at.nanos < usable[j].at.nanos);
        }
    }
    assert forall|i: int| 0 < i < longer.len() implies #[trigger] holds_up(longer, i) by {
        if i < usable.len() {
            assert(holds_up(usable, i));
        }
    }
}

proof fn lemma_time_order_len(observations: Seq<FitObservation>, n: nat)
    ensures
        stable_order(n, |i: int| true, precedes(observations)).len() == n,
    decreases n,
{
    if n > 0 {
        lemma_time_order_len(observations, (n - 1) as nat);
        lemma_placed_len(
            stable_order((n - 1) as nat, |i: int| true, precedes(observations)),
            n - 1,
            precedes(observations),
        );
    }
}

proof fn lemma_placed_len(order: Seq<int>, item: int, leq: spec_fn(int, int) -> bool)
    ensures
        placed(order, item, leq).len() == order.len() + 1,
    decreases order.len(),
{
    if order.len() > 0 && !leq(order.last(), item) {
        lemma_placed_len(order.drop_last(), item, leq);
    }
}

/// Usable observations advance strictly in time and never fall further than their
/// resolution below the one before; each is one of the given observations; and where
/// every observation has an identifier, each is either usable or excluded.
pub proof fn law_usable_observations_advance(observations: Seq<FitObservation>)
    ensures
        advancing(partition(observations).usable),
        never_falling(partition(observations).usable),
        forall|i: int|
            0 <= i < partition(observations).usable.len() ==> observations.contains(
                #[trigger] partition(observations).usable[i],
            ),
        (forall|k: int|
            0 <= k < observations.len() ==> (#[trigger] observations[k]).evidence_id@.len() > 0)
            ==> partition(observations).usable.len() + partition(observations).excluded.len()
            == observations.len(),
{
    let n = observations.len() as int;
    let order = time_order(observations);
    let parts = partition(observations);
    lemma_precedes_is_total(observations);
    lemma_stable_order(observations.len(), |i: int| true, precedes(observations));
    lemma_time_order_len(observations, observations.len());
    lemma_partition(observations, order, n);
    assert forall|i: int| 0 <= i < parts.usable.len() implies observations.contains(
        #[trigger] parts.usable[i],
    ) by {
        assert(taken(parts.usable[i], observations, order, n));
        let k = choose|k: int| 0 <= k < n && parts.usable[i] == observations[#[trigger] order[k]];
        assert(order.contains(order[k]));
        assert(observations[order[k]] == parts.usable[i]);
    }
    if forall|k: int|
        0 <= k < observations.len() ==> (#[trigger] observations[k]).evidence_id@.len() > 0 {
        assert forall|k: int| 0 <= k < n implies observations[
            #[trigger] order[k]].evidence_id@.len() > 0 by {
            assert(order.contains(order[k]));
        }
        assert(identified(observations, order, n));
    }
}

/// Whether no two observations go by the same identifier, and each has one.
pub open spec fn distinctly_identified(observations: Seq<FitObservation>) -> bool {
    &&& forall|i: int|
        0 <= i < observations.len() ==> (#[trigger] observations[i]).evidence_id@.len() > 0
    &&& forall|i: int, j: int|
        #![trigger observations[i], observations[j]]
        0 <= i < j < observations.len() ==> observations[i].evidence_id@
            != observations[j].evidence_id@
}

/// Whether no exclusion names an observation.
pub open spec fn never_excluded(excluded: Seq<ExcludedView>, id: Seq<char>) -> bool {
    forall|e: int| 0 <= e < excluded.len() ==> (#[trigger] excluded[e]).sample_ref != id
}

/// Whether one exclusion names an observation, with a reason, and only that one does.
pub open spec fn excluded_once(excluded: Seq<ExcludedView>, id: Seq<char>) -> bool {
    exists|e: int|
        {
            &&& 0 <= e < excluded.len()
            &&& (#[trigger] excluded[e]).sample_ref == id
            &&& excluded[e].reason.len() > 0
            &&& forall|other: int|
                0 <= other < excluded.len() && (#[trigger] excluded[other]).sample_ref == id
                    ==> other == e
        }
}

/// Whether an observation is excluded as the one at which the quota was reset.
pub open spec fn excluded_as_reset(excluded: Seq<ExcludedView>, id: Seq<char>) -> bool {
    exists|e: int|
        0 <= e < excluded.len() && (#[trigger] excluded[e]).sample_ref == id && excluded[e].reason
            == "excluded: quota reset crossing detected"@
}

/// Whether one observation comes before another in time, or at the same time under a
/// lesser identifier.
spec fn earlier(a: FitObservation, b: FitObservation) -> bool {
    a.at.nanos < b.at.nanos || (a.at.nanos == b.at.nanos && text_before(
        a.evidence_id@,
        b.evidence_id@,
    ))
}

/// Whether each observation comes before those behind it.
spec fn chronological(observations: Seq<FitObservation>) -> bool {
    forall|i: int, j: int|
        #![trigger observations[i], observations[j]]
        0 <= i < j < observations.len() ==> earlier(observations[i], observations[j])
}

/// Some observations in the order of time and identifier.
spec fn in_order(observations: Seq<FitObservation>) -> Seq<FitObservation> {
    Seq::new(observations.len(), |k: int| observations[time_order(observations)[k]])
}

/// The partition of the first `n` of some observations, in the order they are given.
spec fn partitioned(observations: Seq<FitObservation>, n: int) -> Partition
    decreases n,
{
    if n <= 0 {
        Partition { usable: Seq::empty(), excluded: Seq::empty(), after_reset: false }
    } else {
        partition_step(partitioned(observations, n - 1), observations[n - 1])
    }
}

proof fn lemma_partition_in_order(observations: Seq<FitObservation>, n: int)
    requires
        0 <= n <= observations.len(),
    ensures
        partition_up_to(observations, time_order(observations), n) == partitioned(
            in_order(observations),
            n,
        ),
    decreases n,
{
    if n > 0 {
        lemma_partition_in_order(observations, n - 1);
    }
}

/// Distinctly identified observations have one order, which holds each of them.
proof fn lemma_in_order(observations: Seq<FitObservation>)
    requires
        distinctly_identified(observations),
    ensures
        chronological(in_order(observations)),
        distinctly_identified(in_order(observations)),
        forall|x: FitObservation|
            #[trigger] in_order(observations).contains(x) <==> observations.contains(x),
{
    let order = time_order(observations);
    let sorted = in_order(observations);
    let leq = precedes(observations);
    lemma_precedes_is_total(observations);
    lemma_stable_order(observations.len(), |i: int| true, leq);
    lemma_time_order_len(observations, observations.len());
    assert forall|k: int| 0 <= k < order.len() implies 0 <= #[trigger] order[k]
        < observations.len() by {
        assert(order.contains(order[k]));
    }
    assert forall|i: int, j: int|
        #![trigger sorted[i], sorted[j]]
        0 <= i < j < sorted.len() implies earlier(sorted[i], sorted[j]) && sorted[i].evidence_id@
        != sorted[j].evidence_id@ by {
        assert(order[i] != order[j]);
        assert(leq(order[i], order[j]));
        if order[i] < order[j] {
            assert(observations[order[i]].evidence_id@ != observations[order[j]].evidence_id@);
        } else {
            assert(observations[order[j]].evidence_id@ != observations[order[i]].evidence_id@);
        }
        lemma_text_order_total(sorted[i].evidence_id@, sorted[j].evidence_id@);
    }
    assert forall|i: int| 0 <= i < sorted.len() implies (
    #[trigger] sorted[i]).evidence_id@.len() > 0 by {
        assert(0 <= order[i] < observations.len());
        assert(observations[order[i]].evidence_id@.len() > 0);
    }
    assert forall|x: FitObservation| #[trigger] sorted.contains(x) <==> observations.contains(
        x,
    ) by {
        if sorted.contains(x) {
            let k = choose|k: int| 0 <= k < sorted.len() && sorted[k] == x;
            assert(0 <= order[k] < observations.len());
            assert(observations[order[k]] == x);
        }
        if observations.contains(x) {
            let i = choose|i: int| 0 <= i < observations.len() && observations[i] == x;
            assert(order.contains(i));
            let k = choose|k: int| 0 <= k < order.len() && order[k] == i;
            assert(sorted[k] == x);
        }
    }
}

proof fn lemma_earlier_is_strict(a: FitObservation, b: FitObservation)
    ensures
        !(earlier(a, b) && earlier(b, a)),
        !earlier(a, a),
{
    lemma_text_order_total(a.evidence_id@, b.evidence_id@);
    lemma_text_order_total(a.evidence_id@, a.evidence_id@);
}

/// There is one chronological order of some observations.
proof fn lemma_one_chronology(a: Seq<FitObservation>, b: Seq<FitObservation>)
    requires
        chronological(a),
        chronological(b),
        forall|x: FitObservation| #[trigger] a.contains(x) <==> b.contains(x),
    ensures
        a == b,
    decreases a.len(),
{
    if a.len() == 0 {
        if b.len() > 0 {
            assert(b.contains(b[0]));
            assert(a.contains(b[0]));
        }
        assert(a =~= b);
    } else {
        assert(a.contains(a[0]));
        assert(b.contains(a[0]));
        let (x, y) = (a[a.len() - 1], b[b.len() - 1]);
        assert(a.contains(x) && b.contains(y));
        assert(b.contains(x) && a.contains(y));
        let j = choose|j: int| 0 <= j < b.len() && b[j] == x;
        let i = choose|i: int| 0 <= i < a.len() && a[i] == y;
        lemma_earlier_is_strict(x, y);
        if j < b.len() - 1 {
            assert(earlier(b[j], b[b.len() - 1]));
            if i < a.len() - 1 {
                assert(earlier(a[i], a[a.len() - 1]));
            }
        }
        assert(x == y);
        let (shorter, other) = (a.drop_last(), b.drop_last());
        lemma_without_last(a);
        lemma_without_last(b);
        assert forall|z: FitObservation| #[trigger] shorter.contains(z) <==> other.contains(z) by {
            assert(shorter.contains(z) <==> (a.contains(z) && z != x));
            assert(other.contains(z) <==> (b.contains(z) && z != y));
            assert(a.contains(z) <==> b.contains(z));
        }
        lemma_one_chronology(shorter, other);
        assert(a =~= shorter.push(x));
        assert(b =~= other.push(y));
    }
}

proof fn lemma_without_last(a: Seq<FitObservation>)
    requires
        a.len() > 0,
        chronological(a),
    ensures
        chronological(a.drop_last()),
        forall|z: FitObservation|
            #[trigger] a.drop_last().contains(z) <==> (a.contains(z) && z != a.last()),
{
    let shorter = a.drop_last();
    assert forall|i: int, j: int|
        #![trigger shorter[i], shorter[j]]
        0 <= i < j < shorter.len() implies earlier(shorter[i], shorter[j]) by {
        assert(shorter[i] == a[i] && shorter[j] == a[j]);
    }
    assert forall|z: FitObservation| #[trigger] shorter.contains(z) <==> (a.contains(z) && z
        != a.last()) by {
        if shorter.contains(z) {
            let k = choose|k: int| 0 <= k < shorter.len() && shorter[k] == z;
            assert(a[k] == z);
            assert(earlier(a[k], a[a.len() - 1]));
            lemma_earlier_is_strict(z, z);
        }
        if a.contains(z) && z != a.last() {
            let k = choose|k: int| 0 <= k < a.len() && a[k] == z;
            assert(shorter[k] == z);
        }
    }
}

/// What holds of an observation among those parted: it is usable and not excluded, or
/// excluded once and not usable; and where it is excluded as a reset, all usable ones came
/// before it.
pub open spec fn accounted_for(parts: Partition, observation: FitObservation) -> bool {
    let id = observation.evidence_id@;
    &&& parts.usable.contains(observation) <==> never_excluded(parts.excluded, id)
    &&& !parts.usable.contains(observation) <==> excluded_once(parts.excluded, id)
    &&& excluded_as_reset(parts.excluded, id) ==> forall|u: int|
        0 <= u < parts.usable.len() ==> (#[trigger] parts.usable[u]).at.nanos
            < observation.at.nanos
}

/// Whether an observation is not among those parted.
spec fn not_parted(parts: Partition, observation: FitObservation) -> bool {
    !parts.usable.contains(observation) && never_excluded(
        parts.excluded,
        observation.evidence_id@,
    )
}

/// The partition of observations, with one more of them excluded.
proof fn lemma_excluded(
    before: Partition,
    parts: Partition,
    next: FitObservation,
    reason: Seq<char>,
)
    requires
        not_parted(before, next),
        next.evidence_id@.len() > 0,
        reason.len() > 0,
        parts.usable == before.usable,
        parts.excluded == with_exclusion(before.excluded, next.evidence_id@, reason),
        reason == "excluded: quota reset crossing detected"@ ==> forall|u: int|
            0 <= u < before.usable.len() ==> (#[trigger] before.usable[u]).at.nanos
                < next.at.nanos,
    ensures
        accounted_for(parts, next),
        forall|other: FitObservation|
            other.evidence_id@ != next.evidence_id@ && accounted_for(before, other)
                ==> #[trigger] accounted_for(parts, other),
        forall|other: FitObservation|
            other.evidence_id@ != next.evidence_id@ && not_parted(before, other)
                ==> #[trigger] not_parted(parts, other),
{
    let id = next.evidence_id@;
    let last = before.excluded.len() as int;
    assert(parts.excluded == before.excluded.push(ExcludedView { sample_ref: id, reason }));
    assert(parts.excluded[last].sample_ref == id);
    assert(!never_excluded(parts.excluded, id));
    assert forall|e: int| 0 <= e < parts.excluded.len() && (
    #[trigger] parts.excluded[e]).sample_ref == id implies e == last by {
        if e < last {
            assert(before.excluded[e].sample_ref != id);
        }
    }
    assert(excluded_once(parts.excluded, id));
    assert forall|other: FitObservation|
        other.evidence_id@ != id && accounted_for(before, other) implies
        #[trigger] accounted_for(parts, other) by {
        lemma_other_exclusions(before.excluded, id, reason, other.evidence_id@);
    }
    assert forall|other: FitObservation|
        other.evidence_id@ != id && not_parted(before, other) implies
        #[trigger] not_parted(parts, other) by {
        lemma_other_exclusions(before.excluded, id, reason, other.evidence_id@);
    }
}

proof fn lemma_other_exclusions(
    excluded: Seq<ExcludedView>,
    id: Seq<char>,
    reason: Seq<char>,
    other: Seq<char>,
)
    requires
        id != other,
    ensures
        ({
            let more = excluded.push(ExcludedView { sample_ref: id, reason });
            &&& never_excluded(excluded, other) == never_excluded(more, other)
            &&& excluded_once(excluded, other) == excluded_once(more, other)
            &&& excluded_as_reset(excluded, other) == excluded_as_reset(more, other)
        }),
{
    let more = excluded.push(ExcludedView { sample_ref: id, reason });
    assert forall|e: int| 0 <= e < excluded.len() implies #[trigger] excluded[e] == more[e] by {}
    if never_excluded(more, other) {
        assert forall|e: int| 0 <= e < excluded.len() implies (
        #[trigger] excluded[e]).sample_ref != other by {
            assert(more[e].sample_ref != other);
        }
    }
    if excluded_once(excluded, other) {
        let e = choose|e: int|
            {
                &&& 0 <= e < excluded.len()
                &&& (#[trigger] excluded[e]).sample_ref == other
                &&& excluded[e].reason.len() > 0
                &&& forall|x: int|
                    0 <= x < excluded.len() && (#[trigger] excluded[x]).sample_ref == other
                        ==> x == e
            };
        assert(more[e].sample_ref == other);
        assert forall|x: int| 0 <= x < more.len() && (
        #[trigger] more[x]).sample_ref == other implies x == e by {
            assert(x < excluded.len());
            assert(excluded[x].sample_ref == other);
        }
    }
    if excluded_once(more, other) {
        let e = choose|e: int|
            {
                &&& 0 <= e < more.len()
                &&& (#[trigger] more[e]).sample_ref == other
                &&& more[e].reason.len() > 0
                &&& forall|x: int|
                    0 <= x < more.len() && (#[trigger] more[x]).sample_ref == other ==> x == e
            };
        assert(e < excluded.len());
        assert(excluded[e].sample_ref == other);
        assert forall|x: int| 0 <= x < excluded.len() && (
        #[trigger] excluded[x]).sample_ref == other implies x == e by {
            assert(more[x].sample_ref == other);
        }
    }
    if excluded_as_reset(excluded, other) {
        let e = choose|e: int|
            0 <= e < excluded.len() && (#[trigger] excluded[e]).sample_ref == other
                && excluded[e].reason == "excluded: quota reset crossing detected"@;
        assert(more[e].sample_ref == other);
    }
    if excluded_as_reset(more, other) {
        let e = choose|e: int|
            0 <= e < more.len() && (#[trigger] more[e]).sample_ref == other && more[e].reason
                == "excluded: quota reset crossing detected"@;
        assert(excluded[e].sample_ref == other);
    }
}

/// The partition of observations, with one more of them usable.
proof fn lemma_usable(
    before: Partition,
    parts: Partition,
    next: FitObservation,
    others: Seq<FitObservation>,
)
    requires
        not_parted(before, next),
        parts.usable == before.usable.push(next),
        parts.excluded == before.excluded,
        forall|k: int|
            0 <= k < others.len() ==> (#[trigger] others[k]).evidence_id@ != next.evidence_id@,
        forall|k: int|
            0 <= k < others.len() ==> !excluded_as_reset(
                before.excluded,
                (#[trigger] others[k]).evidence_id@,
            ),
    ensures
        accounted_for(parts, next),
        forall|k: int|
            0 <= k < others.len() && accounted_for(before, #[trigger] others[k]) ==> accounted_for(
                parts,
                others[k],
            ),
        forall|other: FitObservation|
            other.evidence_id@ != next.evidence_id@ && not_parted(before, other) ==> (
            #[trigger] not_parted(parts, other)),
{
    let last = before.usable.len() as int;
    assert(parts.usable[last] == next);
    assert(parts.usable.contains(next));
    assert(!excluded_once(parts.excluded, next.evidence_id@));
    assert(!excluded_as_reset(parts.excluded, next.evidence_id@));
    assert forall|other: FitObservation| other.evidence_id@ != next.evidence_id@ implies (
    #[trigger] parts.usable.contains(other)) == before.usable.contains(other) by {
        if before.usable.contains(other) {
            let k = choose|k: int| 0 <= k < before.usable.len() && before.usable[k] == other;
            assert(parts.usable[k] == other);
        }
        if parts.usable.contains(other) {
            let k = choose|k: int| 0 <= k < parts.usable.len() && parts.usable[k] == other;
            assert(k < last);
            assert(before.usable[k] == other);
        }
    }
    assert forall|k: int|
        0 <= k < others.len() && accounted_for(before, #[trigger] others[k]) implies accounted_for(
        parts,
        others[k],
    ) by {
        assert(parts.usable.contains(others[k]) == before.usable.contains(others[k]));
        assert(!excluded_as_reset(before.excluded, others[k].evidence_id@));
    }
    assert forall|other: FitObservation|
        other.evidence_id@ != next.evidence_id@ && not_parted(before, other) implies (
    #[trigger] not_parted(parts, other)) by {
        assert(parts.usable.contains(other) == before.usable.contains(other));
    }
}

/// Whether the first `n` observations are accounted for and the others not yet parted.
spec fn parted_so_far(observations: Seq<FitObservation>, n: int) -> bool {
    let parts = partitioned(observations, n);
    &&& forall|k: int|
        0 <= k < n ==> accounted_for(parts, #[trigger] observations[k])
    &&& forall|k: int|
        n <= k < observations.len() ==> not_parted(parts, #[trigger] observations[k])
    &&& forall|k: int|
        0 <= k < n && !parts.after_reset ==> !excluded_as_reset(
            parts.excluded,
            (#[trigger] observations[k]).evidence_id@,
        )
    &&& forall|u: int|
        0 <= u < parts.usable.len() ==> observations.take(n).contains(#[trigger] parts.usable[u])
}

proof fn lemma_parted(observations: Seq<FitObservation>, n: int)
    requires
        0 <= n <= observations.len(),
        chronological(observations),
        distinctly_identified(observations),
    ensures
        parted_so_far(observations, n),
        advancing(partitioned(observations, n).usable),
    decreases n,
{
    reveal_strlit("excluded: follows quota reset crossing");
    reveal_strlit("excluded: duplicate timestamp");
    reveal_strlit("excluded: quota reset crossing detected");
    assert("excluded: follows quota reset crossing"@.len() == 38);
    assert("excluded: duplicate timestamp"@.len() == 29);
    assert("excluded: quota reset crossing detected"@.len() == 39);
    if n > 0 {
        let before = partitioned(observations, n - 1);
        let parts = partitioned(observations, n);
        let next = observations[n - 1];
        let id = next.evidence_id@;
        lemma_parted(observations, n - 1);
        assert(parts == partition_step(before, next));
        assert(not_parted(before, next));
        let others = observations.take(n - 1);
        assert forall|k: int| 0 <= k < observations.len() && k != n - 1 implies (
        #[trigger] observations[k]).evidence_id@ != id by {
            if k < n - 1 {
                assert(observations[k].evidence_id@ != observations[n - 1].evidence_id@);
            } else {
                assert(observations[n - 1].evidence_id@ != observations[k].evidence_id@);
            }
        }
        assert forall|u: int| 0 <= u < before.usable.len() implies (
        #[trigger] before.usable[u]).at.nanos <= next.at.nanos && observations.take(n).contains(
            before.usable[u],
        ) by {
            assert(others.contains(before.usable[u]));
            let k = choose|k: int| 0 <= k < others.len() && others[k] == before.usable[u];
            assert(observations[k] == before.usable[u]);
            assert(earlier(observations[k], observations[n - 1]));
            assert(observations.take(n)[k] == before.usable[u]);
        }
        assert(observations.take(n)[n - 1] == next);
        if before.after_reset {
            lemma_excluded(before, parts, next, "excluded: follows quota reset crossing"@);
        } else if before.usable.len() > 0 && next.at == before.usable.last().at {
            lemma_excluded(before, parts, next, "excluded: duplicate timestamp"@);
            lemma_not_a_reset(before.excluded, id, "excluded: duplicate timestamp"@);
            assert forall|k: int| 0 <= k < n implies !excluded_as_reset(
                parts.excluded,
                (#[trigger] observations[k]).evidence_id@,
            ) by {
                if k < n - 1 {
                    lemma_other_exclusions(
                        before.excluded,
                        id,
                        "excluded: duplicate timestamp"@,
                        observations[k].evidence_id@,
                    );
                }
            }
        } else if before.usable.len() > 0 && next.quota_used_ppm
            < before.usable.last().quota_used_ppm - next.reported_resolution_ppm {
            assert forall|u: int| 0 <= u < before.usable.len() implies (
            #[trigger] before.usable[u]).at.nanos < next.at.nanos by {
                let last = before.usable.len() - 1;
                assert(before.usable[last].at.nanos <= next.at.nanos);
                assert(before.usable[last].at.nanos != next.at.nanos);
                if u < last {
                    assert(before.usable[u].at.nanos < before.usable[last].at.nanos);
                }
            }
            lemma_excluded(before, parts, next, "excluded: quota reset crossing detected"@);
        } else {
            assert forall|k: int| 0 <= k < others.len() implies (
            #[trigger] others[k]).evidence_id@ != id && !excluded_as_reset(
                before.excluded,
                others[k].evidence_id@,
            ) by {
                assert(others[k] == observations[k]);
            }
            lemma_usable(before, parts, next, others);
            assert forall|k: int| 0 <= k < n implies accounted_for(
                parts,
                #[trigger] observations[k],
            ) && !excluded_as_reset(parts.excluded, observations[k].evidence_id@) by {
                if k < n - 1 {
                    assert(others[k] == observations[k]);
                    assert(accounted_for(before, observations[k]));
                }
            }
            assert forall|i: int, j: int|
                #![trigger parts.usable[i], parts.usable[j]]
                0 <= i < j < parts.usable.len() implies parts.usable[i].at.nanos
                < parts.usable[j].at.nanos by {
                if j == before.usable.len() {
                    let last = before.usable.len() - 1;
                    assert(before.usable[last].at.nanos <= next.at.nanos);
                    assert(before.usable[last].at.nanos != next.at.nanos);
                    if i < last {
                        assert(before.usable[i].at.nanos < before.usable[last].at.nanos);
                    }
                } else {
                    assert(before.usable[i].at.nanos < before.usable[j].at.nanos);
                }
            }
        }
        assert forall|k: int| 0 <= k < n implies accounted_for(
            parts,
            #[trigger] observations[k],
        ) by {
            if k < n - 1 {
                assert(accounted_for(before, observations[k]));
            }
        }
        assert forall|k: int| n <= k < observations.len() implies not_parted(
            parts,
            #[trigger] observations[k],
        ) by {
            assert(not_parted(before, observations[k]));
        }
    }
}

proof fn lemma_not_a_reset(excluded: Seq<ExcludedView>, id: Seq<char>, reason: Seq<char>)
    requires
        never_excluded(excluded, id),
        reason != "excluded: quota reset crossing detected"@,
    ensures
        !excluded_as_reset(excluded.push(ExcludedView { sample_ref: id, reason }), id),
{
    let more = excluded.push(ExcludedView { sample_ref: id, reason });
    if excluded_as_reset(more, id) {
        let e = choose|e: int|
            0 <= e < more.len() && (#[trigger] more[e]).sample_ref == id && more[e].reason
                == "excluded: quota reset crossing detected"@;
        if e < excluded.len() {
            assert(excluded[e].sample_ref != id);
        }
    }
}

/// Every observation is usable, as it was given, or excluded once with a reason, and
/// never both; and whatever is usable came before the observation at which the quota was
/// reset.
pub proof fn law_every_observation_is_accounted_for(observations: Seq<FitObservation>)
    requires
        distinctly_identified(observations),
    ensures
        forall|k: int|
            0 <= k < observations.len() ==> accounted_for(
                partition(observations),
                #[trigger] observations[k],
            ),
{
    let sorted = in_order(observations);
    let n = observations.len() as int;
    lemma_in_order(observations);
    lemma_partition_in_order(observations, n);
    lemma_parted(sorted, n);
    assert forall|k: int| 0 <= k < observations.len() implies accounted_for(
        partition(observations),
        #[trigger] observations[k],
    ) by {
        assert(observations.contains(observations[k]));
        assert(sorted.contains(observations[k]));
        let i = choose|i: int| 0 <= i < sorted.len() && sorted[i] == observations[k];
        assert(accounted_for(partitioned(sorted, n), sorted[i]));
    }
}

/// The order in which observations are given does not matter.
pub proof fn law_partition_ignores_the_order_given(
    observations: Seq<FitObservation>,
    rearranged: Seq<FitObservation>,
)
    requires
        distinctly_identified(observations),
        observations.to_multiset() == rearranged.to_multiset(),
    ensures
        partition(rearranged) == partition(observations),
{
    broadcast use vstd::seq_lib::group_to_multiset_ensures;

    assert forall|x: FitObservation| #[trigger] observations.contains(x) <==> rearranged.contains(
        x,
    ) by {
        assert(observations.contains(x) <==> observations.to_multiset().count(x) > 0);
        assert(rearranged.contains(x) <==> rearranged.to_multiset().count(x) > 0);
    }
    assert(observations.len() == observations.to_multiset().len());
    assert(rearranged.len() == rearranged.to_multiset().len());
    lemma_rearranged_is_identified(observations, rearranged);
    lemma_in_order(observations);
    lemma_in_order(rearranged);
    lemma_one_chronology(in_order(observations), in_order(rearranged));
    lemma_partition_in_order(observations, observations.len() as int);
    lemma_partition_in_order(rearranged, observations.len() as int);
}

proof fn lemma_rearranged_is_identified(
    observations: Seq<FitObservation>,
    rearranged: Seq<FitObservation>,
)
    requires
        distinctly_identified(observations),
        observations.to_multiset() == rearranged.to_multiset(),
        forall|x: FitObservation|
            #[trigger] observations.contains(x) <==> rearranged.contains(x),
    ensures
        distinctly_identified(rearranged),
{
    broadcast use vstd::seq_lib::group_to_multiset_ensures;

    assert(observations.no_duplicates());
    observations.lemma_multiset_has_no_duplicates();
    rearranged.lemma_multiset_has_no_duplicates_conv();
    assert forall|i: int| 0 <= i < rearranged.len() implies (
    #[trigger] rearranged[i]).evidence_id@.len() > 0 by {
        assert(rearranged.contains(rearranged[i]));
        assert(observations.contains(rearranged[i]));
    }
    assert forall|i: int, j: int|
        #![trigger rearranged[i], rearranged[j]]
        0 <= i < j < rearranged.len() implies rearranged[i].evidence_id@
        != rearranged[j].evidence_id@ by {
        assert(rearranged[i] != rearranged[j]);
        assert(rearranged.contains(rearranged[i]) && rearranged.contains(rearranged[j]));
        assert(observations.contains(rearranged[i]) && observations.contains(rearranged[j]));
        let a = choose|a: int| 0 <= a < observations.len() && observations[a] == rearranged[i];
        let b = choose|b: int| 0 <= b < observations.len() && observations[b] == rearranged[j];
        if a < b {
            assert(observations[a].evidence_id@ != observations[b].evidence_id@);
        } else {
            assert(observations[b].evidence_id@ != observations[a].evidence_id@);
        }
    }
}

/// The least of the credits that some observations carry.
pub open spec fn least_credits(observations: Seq<FitObservation>) -> int
    decreases observations.len(),
{
    if observations.len() <= 1 {
        observations[0].cumulative_credits.micros as int
    } else {
        let before = least_credits(observations.drop_last());
        let last = observations.last().cumulative_credits.micros as int;
        if last < before {
            last
        } else {
            before
        }
    }
}

/// The least credits are carried by some observation, and none carries less.
pub proof fn lemma_least_credits(observations: Seq<FitObservation>)
    requires
        observations.len() > 0,
    ensures
        i64::MIN <= least_credits(observations) <= i64::MAX,
        forall|i: int|
            0 <= i < observations.len() ==> least_credits(observations) <= (
            #[trigger] observations[i]).cumulative_credits.micros,
    decreases observations.len(),
{
    if observations.len() > 1 {
        let shorter = observations.drop_last();
        lemma_least_credits(shorter);
        assert forall|i: int| 0 <= i < observations.len() implies least_credits(observations) <= (
        #[trigger] observations[i]).cumulative_credits.micros by {
            if i < shorter.len() {
                assert(shorter[i] == observations[i]);
            }
        }
    }
}

/// The least of the credits that some observations carry.
pub fn lowest_credits(observations: &Vec<FitObservation>) -> (least: i64)
    requires
        observations@.len() > 0,
    ensures
        least == least_credits(observations@),
{
    let mut least: i64 = observations[0].cumulative_credits.micros();
    let mut i: usize = 1;
    assert(observations@.take(1).len() == 1);
    while i < observations.len()
        invariant
            1 <= i <= observations@.len(),
            least == least_credits(observations@.take(i as int)),
        decreases observations@.len() - i,
    {
        assert(observations@.take(i + 1).drop_last() =~= observations@.take(i as int));
        let micros: i64 = observations[i].cumulative_credits.micros();
        if micros < least {
            least = micros;
        }
        i = i + 1;
    }
    assert(observations@.take(observations@.len() as int) =~= observations@);
    least
}

/// What may be behind a large fitted intercept.
pub const INTERCEPT_POSSIBLE_CAUSES: [&'static str; 3] = [
    "contamination",
    "lag mismatch",
    "incomplete cost model",
];

/// Something a fit noticed about its own result.
#[derive(Debug, Clone, Copy, PartialEq, Eq, Structural)]
pub enum DiagnosticFinding {
    /// The fitted intercept is far from zero, so the conditions were not ideal.
    LargeIntercept { intercept_ppm: i64, threshold_ppm: i64 },
}

impl DiagnosticFinding {
    /// The finding as a sentence.
    pub open spec fn text(self) -> Seq<char> {
        match self {
            DiagnosticFinding::LargeIntercept { intercept_ppm, threshold_ppm } =>
                "large fitted intercept ("@ + signed_decimal(intercept_ppm as int)
                    + " ppm exceeds threshold "@ + signed_decimal(threshold_ppm as int)
                    + " ppm); possible causes: "@ + "contamination"@ + ", "@ + "lag mismatch"@
                    + ", "@ + "incomplete cost model"@,
        }
    }

    pub fn possible_causes(&self) -> (causes: [&'static str; 3])
        ensures
            causes@[0]@ == "contamination"@,
            causes@[1]@ == "lag mismatch"@,
            causes@[2]@ == "incomplete cost model"@,
    {
        INTERCEPT_POSSIBLE_CAUSES
    }

    /// Renders the finding as a sentence.
    pub fn message(&self) -> (message: String)
        ensures
            message@ == self.text(),
    {
        match self {
            DiagnosticFinding::LargeIntercept { intercept_ppm, threshold_ppm } => {
                let causes: [&'static str; 3] = INTERCEPT_POSSIBLE_CAUSES;
                let mut m: String = "large fitted intercept (".to_owned();
                m.append(signed_decimal_text(*intercept_ppm).as_str());
                m.append(" ppm exceeds threshold ");
                m.append(signed_decimal_text(*threshold_ppm).as_str());
                m.append(" ppm); possible causes: ");
                m.append(causes[0]);
                m.append(", ");
                m.append(causes[1]);
                m.append(", ");
                m.append(causes[2]);
                m
            },
        }
    }
}

/// Two token classes that a joint fit could not tell apart, with their correlation as
/// it is shown.
#[derive(Debug, Clone, PartialEq, Eq)]
pub struct EntangledCoefficientPair {
    pub first: TokenKind,
    pub second: TokenKind,
    pub correlation: String,
}

impl EntangledCoefficientPair {
    pub fn new(first: TokenKind, second: TokenKind, correlation: String) -> (pair: Self)
        ensures
            pair.first == first,
            pair.second == second,
            pair.correlation == correlation,
    {
        EntangledCoefficientPair { first, second, correlation }
    }

    pub fn first(&self) -> (kind: TokenKind)
        ensures
            kind == self.first,
    {
        self.first
    }

    pub fn second(&self) -> (kind: TokenKind)
        ensures
            kind == self.second,
    {
        self.second
    }
}

/// Why a fit was rejected. Estimates are carried as they are shown.
#[derive(Debug, Clone, PartialEq, Eq)]
pub enum FitRejection {
    InsufficientObservations { found: usize, required: usize },
    Underidentified { usable: usize },
    NonPositiveSlope { slope_ppm_per_credit: String },
    NonPositiveCoefficient { kind: TokenKind, estimate_ppm_per_token: String },
    /// An infinite condition number has no figure to show.
    IllConditioned {
        condition_number: Option<String>,
        threshold: String,
        entangled: Vec<EntangledCoefficientPair>,
    },
    ZeroCreditSpan,
    BaselinePlateauNotSettled,
    TerminalPlateauNotSettled,
    MissingCostModelTerm { details: String },
    ContaminatedSeries { details: String },
}

impl FitRejection {
    /// The rejection as a sentence.
    pub open spec fn text(&self) -> Seq<char> {
        match *self {
            FitRejection::InsufficientObservations { found, required } =>
                "insufficient observations: found "@ + decimal(found as nat)
                    + ", required at least "@ + decimal(required as nat),
            FitRejection::Underidentified { usable } => "fit is underidentified with "@ + decimal(
                usable as nat,
            ) + " usable observations"@,
            FitRejection::NonPositiveSlope { slope_ppm_per_credit } =>
                "non-positive slope fitted: "@ + slope_ppm_per_credit@ + " ppm/credit"@,
            FitRejection::NonPositiveCoefficient { kind, estimate_ppm_per_token } =>
                "non-positive coefficient fitted for "@ + kind.name() + ": "@
                    + estimate_ppm_per_token@
                    + " ppm/token; token usage cannot reduce the used fraction"@,
            FitRejection::IllConditioned { condition_number, threshold, entangled } => {
                let condition = match condition_number {
                    Some(figure) => figure@,
                    None => "infinite"@,
                };
                let lead = "ill-conditioned fit (condition number "@ + condition
                    + " exceeds threshold "@ + threshold@;
                if entangled@.len() > 0 {
                    lead + "); cannot separate "@ + entangled@[0].first.name() + " from "@
                        + entangled@[0].second.name() + " (correlation r="@
                        + entangled@[0].correlation@ + ")"@
                } else {
                    lead + "); no token-kind pair varied independently enough to separate"@
                }
            },
            FitRejection::ZeroCreditSpan => "zero credit movement across observations"@,
            FitRejection::BaselinePlateauNotSettled => "baseline meter plateau did not settle"@,
            FitRejection::TerminalPlateauNotSettled => "terminal meter plateau did not settle"@,
            FitRejection::MissingCostModelTerm { details } => "missing cost model term: "@
                + details@,
            FitRejection::ContaminatedSeries { details } => "contaminated observation series: "@
                + details@,
        }
    }

    /// Renders the rejection as a sentence.
    pub fn message(&self) -> (message: String)
        ensures
            message@ == self.text(),
    {
        match self {
            FitRejection::InsufficientObservations { found, required } => {
                let mut m: String = "insufficient observations: found ".to_owned();
                m.append(decimal_text(*found as u128).as_str());
                m.append(", required at least ");
                m.append(decimal_text(*required as u128).as_str());
                m
            },
            FitRejection::Underidentified { usable } => {
                let mut m: String = "fit is underidentified with ".to_owned();
                m.append(decimal_text(*usable as u128).as_str());
                m.append(" usable observations");
                m
            },
            FitRejection::NonPositiveSlope { slope_ppm_per_credit } => {
                let mut m: String = "non-positive slope fitted: ".to_owned();
                m.append(slope_ppm_per_credit.as_str());
                m.append(" ppm/credit");
                m
            },
            FitRejection::NonPositiveCoefficient { kind, estimate_ppm_per_token } => {
                let mut m: String = "non-positive coefficient fitted for ".to_owned();
                m.append(kind.label());
                m.append(": ");
                m.append(estimate_ppm_per_token.as_str());
                m.append(" ppm/token; token usage cannot reduce the used fraction");
                m
            },
            FitRejection::IllConditioned { condition_number, threshold, entangled } => {
                let mut m: String = "ill-conditioned fit (condition number ".to_owned();
                match condition_number {
                    Some(figure) => {
                        m.append(figure.as_str());
                    },
                    None => {
                        m.append("infinite");
                    },
                }
                m.append(" exceeds threshold ");
                m.append(threshold.as_str());
                if entangled.len() > 0 {
                    m.append("); cannot separate ");
                    m.append(entangled[0].first.label());
                    m.append(" from ");
                    m.append(entangled[0].second.label());
                    m.append(" (correlation r=");
                    m.append(entangled[0].correlation.as_str());
                    m.append(")");
                } else {
                    m.append("); no token-kind pair varied independently enough to separate");
                }
                m
            },
            FitRejection::ZeroCreditSpan => "zero credit movement across observations".to_owned(),
            FitRejection::BaselinePlateauNotSettled =>
                "baseline meter plateau did not settle".to_owned(),
            FitRejection::TerminalPlateauNotSettled =>
                "terminal meter plateau did not settle".to_owned(),
            FitRejection::MissingCostModelTerm { details } => {
                let mut m: String = "missing cost model term: ".to_owned();
                m.append(details.as_str());
                m
            },
            FitRejection::ContaminatedSeries { details } => {
                let mut m: String = "contaminated observation series: ".to_owned();
                m.append(details.as_str());
                m
            },
        }
    }

    /// The error a command ends with.
    pub fn into_error(self) -> (error: Error)
        ensures
            error@ == ErrorView::InsufficientEvidence("fit rejected: "@ + self.text()),
    {
        let mut m: String = "fit rejected: ".to_owned();
        m.append(self.message().as_str());
        Error::InsufficientEvidence(m)
    }
}

/// Whether some observations carry different credits.
pub open spec fn credits_move(observations: Seq<FitObservation>) -> bool {
    exists|i: int|
        0 <= i < observations.len() && (#[trigger] observations[i]).cumulative_credits
            != observations[0].cumulative_credits
}

/// What a regression is run on: the usable observations, what was left out, the least
/// credits of the usable ones, and the resolution of the first.
#[derive(Debug, PartialEq, Eq)]
pub struct FitFrame {
    pub usable: Vec<FitObservation>,
    pub excluded: Vec<ExcludedSample>,
    pub least_credits: i64,
    pub resolution_ppm: i64,
}

/// Whether fewer than two observations are left to fit.
pub open spec fn too_few(found: nat, rejection: FitRejection) -> bool {
    rejection is InsufficientObservations && rejection->found == found && rejection->required == 2
}

/// Decides whether observations can be fitted at all, and lays out those that can: at
/// least two, at least two usable, and with credits that move.
pub fn prepare_fit(observations: &Vec<FitObservation>) -> (frame: Result<FitFrame, FitRejection>)
    ensures
        ({
            let parts = partition(observations@);
            match frame {
                Ok(f) => {
                    &&& observations@.len() >= 2
                    &&& parts.usable.len() >= 2
                    &&& credits_move(parts.usable)
                    &&& f.usable@ == parts.usable
                    &&& excluded_views(f.excluded@) == parts.excluded
                    &&& f.least_credits == least_credits(parts.usable)
                    &&& f.resolution_ppm == parts.usable[0].reported_resolution_ppm
                },
                Err(rejection) => if observations@.len() < 2 {
                    too_few(observations@.len(), rejection)
                } else if parts.usable.len() < 2 {
                    too_few(parts.usable.len(), rejection)
                } else {
                    !credits_move(parts.usable) && rejection is ZeroCreditSpan
                },
            }
        }),
{
    if observations.len() < 2 {
        return Err(
            FitRejection::InsufficientObservations { found: observations.len(), required: 2 },
        );
    }
    let (usable, excluded) = partition_usable_observations(observations);
    if usable.len() < 2 {
        return Err(FitRejection::InsufficientObservations { found: usable.len(), required: 2 });
    }
    let mut moves: bool = false;
    let mut i: usize = 0;
    while i < usable.len()
        invariant
            i <= usable@.len(),
            usable@.len() >= 2,
            moves == exists|k: int|
                0 <= k < i && (#[trigger] usable@[k]).cumulative_credits
                    != usable@[0].cumulative_credits,
        decreases usable@.len() - i,
    {
        if usable[i].cumulative_credits != usable[0].cumulative_credits {
            assert(usable@[i as int].cumulative_credits != usable@[0].cumulative_credits);
            moves = true;
        }
        i = i + 1;
    }
    if !moves {
        return Err(FitRejection::ZeroCreditSpan);
    }
    let least: i64 = lowest_credits(&usable);
    let resolution_ppm: i64 = usable[0].reported_resolution_ppm;
    Ok(FitFrame { usable, excluded, least_credits: least, resolution_ppm })
}

/// What a regression estimated, in whole millionths of a credit and parts per million.
#[derive(Debug, PartialEq, Eq)]
pub struct SlopeEstimate {
    pub micros_per_point: i64,
    pub uncertainty_low_micros: i64,
    pub uncertainty_high_micros: i64,
    pub fit_residual_micros: i64,
    pub intercept_ppm: i64,
    /// The Huber threshold in parts per million, as it is shown.
    pub huber_delta_ppm: String,
}

/// The complete result of a fit.
#[derive(Debug, PartialEq, Eq)]
pub struct FitResult {
    pub candidate: WindowCalibrationCandidate,
    pub lag_handling: String,
    pub statistical_method: String,
    pub statistical_parameters: String,
    pub usable_observations: u32,
    pub excluded_samples: Vec<ExcludedSample>,
    pub diagnostic_findings: Vec<DiagnosticFinding>,
}

/// The identifiers of some observations, as a set.
pub open spec fn evidence_of(observations: Seq<FitObservation>) -> Seq<Seq<char>> {
    ordered_set(observations.map_values(|o: FitObservation| o.evidence_id@))
}

/// The greater of two numbers.
pub open spec fn greater(a: int, b: int) -> int {
    if a < b {
        b
    } else {
        a
    }
}

/// The lesser of two numbers.
pub open spec fn lesser(a: int, b: int) -> int {
    if a < b {
        a
    } else {
        b
    }
}

/// What a whole window is worth at so many micros per point, as far as representable.
pub open spec fn full_window(micros_per_point: int) -> int {
    lesser(greater(micros_per_point * 1_000_000, 0), i64::MAX as int)
}

/// The intercept from which a fit reports one as large.
pub open spec fn intercept_threshold(resolution_ppm: int) -> int {
    greater(resolution_ppm, 5000)
}

/// What a fit notices about its intercept.
pub open spec fn intercept_findings(
    intercept_ppm: i64,
    resolution_ppm: i64,
) -> Seq<DiagnosticFinding> {
    let size = if intercept_ppm < 0 {
        -intercept_ppm
    } else {
        intercept_ppm as int
    };
    let threshold = intercept_threshold(resolution_ppm as int);
    if size > threshold {
        seq![
            DiagnosticFinding::LargeIntercept { intercept_ppm, threshold_ppm: threshold as i64 },
        ]
    } else {
        Seq::empty()
    }
}

/// Whether a candidate is what an estimate over some observations of an experiment
/// comes to.
pub open spec fn candidate_of(
    candidate: WindowCalibrationCandidate,
    estimate: SlopeEstimate,
    observations: Seq<FitObservation>,
    usable: nat,
    experiment: CalibrationExperiment,
) -> bool {
    let low = lesser(
        estimate.uncertainty_low_micros as int,
        estimate.uncertainty_high_micros as int,
    );
    let high = greater(
        estimate.uncertainty_low_micros as int,
        estimate.uncertainty_high_micros as int,
    );
    &&& candidate.inputs.describes(evidence_of(observations))
    &&& candidate.id@ == "cand-"@ + experiment.id@ + "-"@ + hexadecimal(
        candidate.inputs.digest as nat,
        16,
    )
    &&& candidate.experiment@ == experiment.id@
    &&& candidate.provider@ == experiment.provider@
    &&& candidate.plan_tier@ == experiment.plan_tier@
    &&& candidate.window_semantic_key@ == experiment.window_semantic_key@
    &&& candidate.fitted.micros == greater(estimate.micros_per_point as int, 1)
    &&& candidate.equivalent_full_window_capacity.micros == full_window(
        estimate.micros_per_point as int,
    )
    &&& candidate.fit_residual.micros == greater(estimate.fit_residual_micros as int, 0)
    &&& candidate.uncertainty.low().micros == greater(low, 1)
    &&& candidate.uncertainty.high().micros == greater(high, greater(low, 1))
    &&& candidate.sample_count == usable as u32
    &&& candidate.validity == experiment.validity
    &&& candidate.knowledge_time == experiment.knowledge_time
}

/// The set of identifiers of some observations.
pub fn evidence_set(observations: &Vec<FitObservation>) -> (set: TextSet)
    ensures
        set@ == evidence_of(observations@),
{
    let ghost ids = observations@.map_values(|o: FitObservation| o.evidence_id@);
    let mut set: TextSet = TextSet::new();
    let mut i: usize = 0;
    assert(ids.take(0) =~= Seq::empty());
    while i < observations.len()
        invariant
            i <= observations@.len(),
            ids == observations@.map_values(|o: FitObservation| o.evidence_id@),
            set@ == ordered_set(ids.take(i as int)),
        decreases observations@.len() - i,
    {
        assert(ids.take(i + 1).drop_last() =~= ids.take(i as int));
        assert(ids.take(i + 1).last() == observations@[i as int].evidence_id@);
        set.insert(observations[i].evidence_id.as_str());
        i = i + 1;
    }
    assert(ids.take(observations@.len() as int) =~= ids);
    set
}

/// Turns an estimate into the result of a fit: a candidate with ordered uncertainty and
/// a positive coefficient, tied to all the evidence it consumed, and what the fit
/// noticed about its intercept. Nothing is activated.
pub fn conclude_fit(
    frame: FitFrame,
    observations: &Vec<FitObservation>,
    estimate: &SlopeEstimate,
    experiment: &CalibrationExperiment,
) -> (result: FitResult)
    ensures
        candidate_of(
            result.candidate,
            *estimate,
            observations@,
            frame.usable@.len(),
            *experiment,
        ),
        estimate.fit_residual_micros >= 0 ==> result.candidate.fit_residual.micros
            == estimate.fit_residual_micros,
        estimate.micros_per_point >= 1 ==> result.candidate.fitted.micros
            == estimate.micros_per_point,
        result.lag_handling@ == "settled-boundary-cancellation"@,
        result.statistical_method@ == "theil-sen-huber-interval"@,
        result.statistical_parameters@ == "huber_delta_ppm="@ + estimate.huber_delta_ppm@
            + ";init=theil_sen;quantization=admissible_interval"@,
        result.usable_observations == frame.usable@.len() as u32,
        result.excluded_samples@ == frame.excluded@,
        result.diagnostic_findings@ == intercept_findings(
            estimate.intercept_ppm,
            frame.resolution_ppm,
        ),
{
    let first: i64 = estimate.uncertainty_low_micros;
    let second: i64 = estimate.uncertainty_high_micros;
    let (low, high): (i64, i64) = if first <= second {
        (first, second)
    } else {
        (second, first)
    };
    let lower: i64 = if low < 1 {
        1
    } else {
        low
    };
    let upper: i64 = if high < lower {
        lower
    } else {
        high
    };
    let uncertainty: CoefficientUncertainty = CoefficientUncertainty::new(
        CreditsPerPercentagePoint::from_micros_per_point(lower),
        CreditsPerPercentagePoint::from_micros_per_point(upper),
    ).unwrap();
    let fitted: i64 = if estimate.micros_per_point < 1 {
        1
    } else {
        estimate.micros_per_point
    };
    let product: i128 = estimate.micros_per_point as i128 * 1_000_000;
    let capacity: i64 = if product < 0 {
        0
    } else if product > i64::MAX as i128 {
        i64::MAX
    } else {
        product as i64
    };
    let residual: i64 = if estimate.fit_residual_micros < 0 {
        0
    } else {
        estimate.fit_residual_micros
    };
    let threshold: i64 = if frame.resolution_ppm < 5000 {
        5000
    } else {
        frame.resolution_ppm
    };
    let size: i128 = if estimate.intercept_ppm < 0 {
        -(estimate.intercept_ppm as i128)
    } else {
        estimate.intercept_ppm as i128
    };
    let mut findings: Vec<DiagnosticFinding> = Vec::new();
    if size > threshold as i128 {
        findings.push(
            DiagnosticFinding::LargeIntercept {
                intercept_ppm: estimate.intercept_ppm,
                threshold_ppm: threshold,
            },
        );
    }
    assert(findings@ =~= intercept_findings(estimate.intercept_ppm, frame.resolution_ppm));
    let set: TextSet = evidence_set(observations);
    let inputs: EvidenceDigest = EvidenceDigest::from_inputs(&set);
    let mut id: String = "cand-".to_owned();
    id.append(experiment.id.as_str());
    id.append("-");
    id.append(hex16(inputs.digest()).as_str());
    let mut parameters: String = "huber_delta_ppm=".to_owned();
    parameters.append(estimate.huber_delta_ppm.as_str());
    parameters.append(";init=theil_sen;quantization=admissible_interval");
    let count: usize = frame.usable.len();
    let sample_count: u32 = #[verifier::truncate] (count as u32);
    FitResult {
        candidate: WindowCalibrationCandidate {
            id: CandidateId::new(id.as_str()),
            experiment: experiment.id.clone(),
            provider: experiment.provider.clone(),
            plan_tier: experiment.plan_tier.clone(),
            window_semantic_key: experiment.window_semantic_key.clone(),
            fitted: CreditsPerPercentagePoint::from_micros_per_point(fitted),
            equivalent_full_window_capacity: Credits::from_micros(capacity),
            fit_residual: Credits::from_micros(residual),
            uncertainty,
            sample_count,
            inputs,
            validity: experiment.validity,
            knowledge_time: experiment.knowledge_time,
        },
        lag_handling: "settled-boundary-cancellation".to_owned(),
        statistical_method: "theil-sen-huber-interval".to_owned(),
        statistical_parameters: parameters,
        usable_observations: sample_count,
        excluded_samples: frame.excluded,
        diagnostic_findings: findings,
    }
}

/// A candidate always has a positive coefficient inside a positive, ordered range where
/// the estimate put it there, and its identity depends on the experiment and the
/// evidence alone.
pub proof fn law_candidate_is_sound(
    candidate: WindowCalibrationCandidate,
    other: WindowCalibrationCandidate,
    estimate: SlopeEstimate,
    other_estimate: SlopeEstimate,
    observations: Seq<FitObservation>,
    usable: nat,
    experiment: CalibrationExperiment,
)
    requires
        candidate_of(candidate, estimate, observations, usable, experiment),
        candidate_of(other, other_estimate, observations, usable, experiment),
    ensures
        candidate.fitted.micros >= 1,
        1 <= candidate.uncertainty.low().micros <= candidate.uncertainty.high().micros,
        candidate.fit_residual.micros >= 0,
        candidate.equivalent_full_window_capacity.micros >= 0,
        lesser(
            estimate.uncertainty_low_micros as int,
            estimate.uncertainty_high_micros as int,
        ) <= estimate.micros_per_point <= greater(
            estimate.uncertainty_low_micros as int,
            estimate.uncertainty_high_micros as int,
        ) ==> candidate.uncertainty.low().micros <= candidate.fitted.micros
            <= candidate.uncertainty.high().micros,
        candidate.id@ == other.id@,
{
}

/// The candidate carries what was estimated: residual, coefficient and range are the
/// estimate's own wherever those are in range and in order, a range given backwards is
/// turned round, what is below its range is raised to it, the capacity is that of a
/// million points as far as representable, and everything else is the experiment's.
pub proof fn law_candidate_carries_the_estimate(
    candidate: WindowCalibrationCandidate,
    estimate: SlopeEstimate,
    observations: Seq<FitObservation>,
    usable: nat,
    experiment: CalibrationExperiment,
)
    requires
        candidate_of(candidate, estimate, observations, usable, experiment),
    ensures
        estimate.fit_residual_micros >= 0 ==> candidate.fit_residual.micros
            == estimate.fit_residual_micros,
        estimate.fit_residual_micros < 0 ==> candidate.fit_residual.micros == 0,
        estimate.micros_per_point >= 1 ==> candidate.fitted.micros == estimate.micros_per_point,
        estimate.micros_per_point < 1 ==> candidate.fitted.micros == 1,
        1 <= estimate.uncertainty_low_micros <= estimate.uncertainty_high_micros
            ==> candidate.uncertainty.low().micros == estimate.uncertainty_low_micros
            && candidate.uncertainty.high().micros == estimate.uncertainty_high_micros,
        1 <= estimate.uncertainty_high_micros <= estimate.uncertainty_low_micros
            ==> candidate.uncertainty.low().micros == estimate.uncertainty_high_micros
            && candidate.uncertainty.high().micros == estimate.uncertainty_low_micros,
        estimate.uncertainty_low_micros < 1 || estimate.uncertainty_high_micros < 1
            ==> candidate.uncertainty.low().micros == 1,
        estimate.uncertainty_low_micros < 1 <= estimate.uncertainty_high_micros
            ==> candidate.uncertainty.high().micros == estimate.uncertainty_high_micros,
        estimate.uncertainty_high_micros < 1 <= estimate.uncertainty_low_micros
            ==> candidate.uncertainty.high().micros == estimate.uncertainty_low_micros,
        estimate.uncertainty_low_micros < 1 && estimate.uncertainty_high_micros < 1
            ==> candidate.uncertainty.high().micros == 1,
        0 <= estimate.micros_per_point * 1_000_000 <= i64::MAX
            ==> candidate.equivalent_full_window_capacity.micros == estimate.micros_per_point
            * 1_000_000,
        estimate.micros_per_point < 0 ==> candidate.equivalent_full_window_capacity.micros == 0,
        estimate.micros_per_point * 1_000_000 > i64::MAX
            ==> candidate.equivalent_full_window_capacity.micros == i64::MAX,
        usable <= u32::MAX ==> candidate.sample_count == usable,
        candidate.experiment@ == experiment.id@,
        candidate.provider@ == experiment.provider@,
        candidate.plan_tier@ == experiment.plan_tier@,
        candidate.window_semantic_key@ == experiment.window_semantic_key@,
        candidate.validity == experiment.validity,
        candidate.knowledge_time == experiment.knowledge_time,
{
}

/// A fit consumes all of its evidence: the set it is identified by holds the identifier of
/// every observation, and no other.
pub proof fn law_every_observation_is_evidence(observations: Seq<FitObservation>, id: Seq<char>)
    ensures
        evidence_of(observations).contains(id) <==> exists|i: int|
            0 <= i < observations.len() && (#[trigger] observations[i]).evidence_id@ == id,
{
    let ids = observations.map_values(|o: FitObservation| o.evidence_id@);
    lemma_ordered_set(ids);
    if ids.contains(id) {
        let i = choose|i: int| 0 <= i < ids.len() && ids[i] == id;
        assert(observations[i].evidence_id@ == id);
    }
    if exists|i: int|
        0 <= i < observations.len() && (#[trigger] observations[i]).evidence_id@ == id {
        let i = choose|i: int|
            0 <= i < observations.len() && (#[trigger] observations[i]).evidence_id@ == id;
        assert(ids[i] == id);
    }
}

/// An intercept is noticed exactly where it lies further from zero, on either side, than
/// both five thousand parts per million and the resolution of the readings; and then
/// once, as it was estimated.
pub proof fn law_large_intercepts_are_noticed(intercept_ppm: i64, resolution_ppm: i64)
    ensures
        ({
            let findings = intercept_findings(intercept_ppm, resolution_ppm);
            let large = (intercept_ppm > 5000 && intercept_ppm > resolution_ppm) || (-intercept_ppm
                > 5000 && -intercept_ppm > resolution_ppm);
            &&& !large ==> findings.len() == 0
            &&& large ==> findings.len() == 1 && match findings[0] {
                DiagnosticFinding::LargeIntercept { intercept_ppm: noticed, threshold_ppm } => {
                    &&& noticed == intercept_ppm
                    &&& threshold_ppm >= 5000
                    &&& threshold_ppm >= resolution_ppm
                    &&& threshold_ppm == 5000 || threshold_ppm == resolution_ppm
                },
            }
        }),
{
}

/// A reading stands for exactly the values that would have been rounded to it: itself
/// where nothing is rounded, up to one step above where readings are rounded down, down to
/// one step below where they are rounded up, half a step either way where they are rounded
/// to the nearest (the odd part of a step above), and a whole step either way where it is
/// not known how they are rounded.
pub proof fn law_a_reading_stands_for_what_rounds_to_it(reading: int, resolution: int)
    requires
        resolution >= 0,
    ensures
        lowest(reading, resolution, QuantizationSemantics::Exact) == reading,
        highest(reading, resolution, QuantizationSemantics::Exact) == reading,
        lowest(reading, resolution, QuantizationSemantics::RoundedDown) == reading,
        highest(reading, resolution, QuantizationSemantics::RoundedDown) - reading == resolution,
        reading - lowest(reading, resolution, QuantizationSemantics::RoundedUp) == resolution,
        highest(reading, resolution, QuantizationSemantics::RoundedUp) == reading,
        reading - lowest(reading, resolution, QuantizationSemantics::Unknown) == resolution,
        highest(reading, resolution, QuantizationSemantics::Unknown) - reading == resolution,
        ({
            let below = reading - lowest(
                reading,
                resolution,
                QuantizationSemantics::RoundedToNearest,
            );
            let above = highest(reading, resolution, QuantizationSemantics::RoundedToNearest)
                - reading;
            &&& below + above == resolution
            &&& 0 <= above - below <= 1
        }),
{
}

/// The least credits are carried by some observation, and none carries less.
pub proof fn law_least_credits_are_carried(observations: Seq<FitObservation>) -> (at: int)
    requires
        observations.len() > 0,
    ensures
        0 <= at < observations.len(),
        observations[at].cumulative_credits.micros == least_credits(observations),
        forall|i: int|
            0 <= i < observations.len() ==> least_credits(observations) <= (
            #[trigger] observations[i]).cumulative_credits.micros,
    decreases observations.len(),
{
    lemma_least_credits(observations);
    if observations.len() == 1 {
        0
    } else {
        let shorter = observations.drop_last();
        let before = law_least_credits_are_carried(shorter);
        if observations.last().cumulative_credits.micros < least_credits(shorter) {
            observations.len() - 1
        } else {
            before
        }
    }
}

/// Credits move exactly where two observations carry different credits.
pub proof fn law_credits_move_where_they_differ(observations: Seq<FitObservation>, i: int, j: int)
    requires
        0 <= i < observations.len(),
        0 <= j < observations.len(),
    ensures
        observations[i].cumulative_credits.micros != observations[j].cumulative_credits.micros
            ==> credits_move(observations),
{
    if observations[i].cumulative_credits.micros != observations[j].cumulative_credits.micros
        && observations[i].cumulative_credits == observations[0].cumulative_credits {
        assert(observations[j].cumulative_credits != observations[0].cumulative_credits);
    }
}

/// No observation leaves nothing usable and nothing excluded; and an observation later
/// than all others changes only its own lot. It is usable where none was before it. After
/// a reset it is left out as following one; at the moment of the last usable one, as
/// repeating it; more than its resolution below the last usable one, as the reset itself,
/// and every later one follows a reset. Otherwise it is usable.
pub proof fn law_one_more_observation(observations: Seq<FitObservation>, next: FitObservation)
    requires
        distinctly_identified(observations.push(next)),
        forall|i: int|
            0 <= i < observations.len() ==> (#[trigger] observations[i]).at.nanos < next.at.nanos
                || (observations[i].at.nanos == next.at.nanos && text_before(
                observations[i].evidence_id@,
                next.evidence_id@,
            )),
    ensures
        partition(Seq::empty()).usable.len() == 0,
        partition(Seq::empty()).excluded.len() == 0,
        !partition(Seq::empty()).after_reset,
        ({
            let before = partition(observations);
            let after = partition(observations.push(next));
            let left_out = after.usable == before.usable && after.excluded.len()
                == before.excluded.len() + 1 && after.excluded.drop_last() == before.excluded
                && after.excluded.last().sample_ref == next.evidence_id@;
            if before.after_reset {
                &&& left_out
                &&& after.excluded.last().reason == "excluded: follows quota reset crossing"@
                &&& after.after_reset
            } else if before.usable.len() > 0 && next.at.nanos == before.usable.last().at.nanos {
                &&& left_out
                &&& after.excluded.last().reason == "excluded: duplicate timestamp"@
                &&& !after.after_reset
            } else if before.usable.len() > 0 && next.quota_used_ppm + next.reported_resolution_ppm
                < before.usable.last().quota_used_ppm {
                &&& left_out
                &&& after.excluded.last().reason == "excluded: quota reset crossing detected"@
                &&& after.after_reset
            } else {
                &&& after.usable == before.usable.push(next)
                &&& after.excluded == before.excluded
                &&& !after.after_reset
            }
        }),
{
    let all = observations.push(next);
    let n = observations.len() as int;
    assert(all[n] == next);
    assert(distinctly_identified(observations)) by {
        assert forall|i: int| 0 <= i < n implies (
        #[trigger] observations[i]).evidence_id@.len() > 0 by {
            assert(all[i] == observations[i]);
        }
        assert forall|i: int, j: int|
            #![trigger observations[i], observations[j]]
            0 <= i < j < n implies observations[i].evidence_id@
            != observations[j].evidence_id@ by {
            assert(all[i] == observations[i] && all[j] == observations[j]);
        }
    }
    lemma_in_order(observations);
    lemma_in_order(all);
    let sorted = in_order(observations);
    let longer = sorted.push(next);
    assert(chronological(longer)) by {
        assert forall|i: int, j: int|
            #![trigger longer[i], longer[j]]
            0 <= i < j < longer.len() implies earlier(longer[i], longer[j]) by {
            assert(longer[i] == sorted[i]);
            if j == n {
                assert(sorted.contains(sorted[i]));
                assert(observations.contains(sorted[i]));
                let k = choose|k: int| 0 <= k < n && observations[k] == sorted[i];
                assert(observations[k].at.nanos <= next.at.nanos);
            } else {
                assert(longer[j] == sorted[j]);
            }
        }
    }
    assert forall|x: FitObservation| #[trigger] longer.contains(x) <==> in_order(all).contains(
        x,
    ) by {
        assert(in_order(all).contains(x) <==> all.contains(x));
        assert(sorted.contains(x) <==> observations.contains(x));
        if longer.contains(x) {
            let k = choose|k: int| 0 <= k < longer.len() && longer[k] == x;
            if k < n {
                assert(sorted[k] == x);
                assert(sorted.contains(x));
                let m = choose|m: int| 0 <= m < n && observations[m] == x;
                assert(all[m] == x);
            } else {
                assert(all[n] == x);
            }
        }
        if all.contains(x) {
            let m = choose|m: int| 0 <= m < all.len() && all[m] == x;
            if m < n {
                assert(observations[m] == x);
                assert(sorted.contains(x));
                let k = choose|k: int| 0 <= k < n && sorted[k] == x;
                assert(longer[k] == x);
            } else {
                assert(longer[n] == x);
            }
        }
    }
    lemma_one_chronology(longer, in_order(all));
    lemma_partition_in_order(observations, n);
    lemma_partition_in_order(all, n + 1);
    lemma_partitioned_prefix(sorted, longer, n);
    assert(partition(all) == partition_step(partition(observations), next));
    assert(next.evidence_id@.len() > 0) by {
        assert(all[n].evidence_id@.len() > 0);
    }
    let before = partition(observations);
    let after = partition(all);
    if after.excluded.len() > before.excluded.len() {
        assert(after.excluded.drop_last() =~= before.excluded);
    }
    if before.usable.len() > 0 {
        assert(next.at == before.usable.last().at <==> next.at.nanos
            == before.usable.last().at.nanos);
    }
}

proof fn lemma_partitioned_prefix(
    shorter: Seq<FitObservation>,
    longer: Seq<FitObservation>,
    n: int,
)
    requires
        n <= shorter.len(),
        n <= longer.len(),
        forall|i: int| 0 <= i < n ==> shorter[i] == #[trigger] longer[i],
    ensures
        partitioned(shorter, n) == partitioned(longer, n),
    decreases n,
{
    if n > 0 {
        lemma_partitioned_prefix(shorter, longer, n - 1);
        assert(shorter[n - 1] == longer[n - 1]);
    }
}

/// The order of time holds every observation once, none before one that is earlier, and of
/// two at the same moment the one with the lesser identifier first.
pub proof fn law_time_order_is_chronological(observations: Seq<FitObservation>)
    ensures
        time_order(observations).len() == observations.len(),
        time_order(observations).no_duplicates(),
        forall|i: int| #[trigger]
            time_order(observations).contains(i) <==> 0 <= i < observations.len(),
        forall|i: int, j: int|
            #![trigger time_order(observations)[i], time_order(observations)[j]]
            0 <= i <= j < observations.len() ==> {
                let a = observations[time_order(observations)[i]];
                let b = observations[time_order(observations)[j]];
                &&& a.at.nanos <= b.at.nanos
                &&& a.at.nanos == b.at.nanos ==> !text_before(b.evidence_id@, a.evidence_id@)
            },
{
    let order = time_order(observations);
    let leq = precedes(observations);
    lemma_precedes_is_total(observations);
    lemma_stable_order(observations.len(), |i: int| true, leq);
    lemma_time_order_len(observations, observations.len());
    assert forall|i: int, j: int|
        #![trigger order[i], order[j]]
        0 <= i <= j < observations.len() implies {
        let a = observations[order[i]];
        let b = observations[order[j]];
        &&& a.at.nanos <= b.at.nanos
        &&& a.at.nanos == b.at.nanos ==> !text_before(b.evidence_id@, a.evidence_id@)
    } by {
        if i < j {
            assert(leq(order[i], order[j]));
        } else {
            assert(leq(order[i], order[i]) || leq(order[i], order[i]));
        }
    }
}

/// Too few observations are refused with how many there were, and that two are needed.
pub proof fn law_too_few_says_how_many(found: usize, other: nat, rejection: FitRejection)
    ensures
        too_few(
            found as nat,
            (FitRejection::InsufficientObservations { found, required: 2 }),
        ),
        too_few(found as nat, rejection) ==> rejection is InsufficientObservations
            && rejection->required == 2,
        too_few(found as nat, rejection) && too_few(other, rejection) ==> found == other,
{
}

} // verus!
