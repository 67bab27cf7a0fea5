//! Building the intervals of a passive calibration from what a ledger holds.
//!
//! Intervals run between settled plateaus of the meter. Where fewer than two plateaus
//! settle, neighbouring readings are paired instead, and marked as not settled.

use crate::calibration::fitter::FitObservation;
use crate::calibration::passive::{CandidateInterval, WindowAnomalyKind};
use crate::calibration::settlement::{
    chronology, conservative_criterion, deadline_after, detect_settlement, first_plateau,
    law_chronology_is_time_order, law_conservative_criterion_in_figures,
    law_conservative_defaults_are_published, law_one_step_beyond_tolerance_is_material, no_later,
    plateau, settlement_of, spaced, steady, SettlementCoverage, SettlementMeterObservation,
    SettlementObservationSeries, SettlementPolicy, SettlementRole,
};
use crate::domain::{
    law_token_classes_have_their_own_names, Credits, QuantizationSemantics, QuotaUsed,
    ReportedResolution, TokenKind, UtcTimestamp,
};
use crate::ids::{EvidenceId, PlanTier, ProviderKey, WindowSemanticKey};
use crate::order::arranged;
use crate::text::{begins_with, decimal, decimal_text, same_text, starts_with};
use vstd::prelude::*;
use vstd::string::*;

verus! {

/// Whether a name passes a filter; without a filter every name does.
pub open spec fn passes(filter: Option<&str>, name: Seq<char>) -> bool {
    filter is Some ==> filter->0@ == name
}

/// Whether a name passes a filter; without a filter every name does.
pub fn is_selected(filter: Option<&str>, name: &str) -> (selected: bool)
    ensures
        selected == passes(filter, name@),
{
    match filter {
        Some(target) => same_text(target, name),
        None => true,
    }
}

/// A meter reading of an account's window.
#[derive(Debug, Clone, PartialEq, Eq)]
pub struct PassiveObservation {
    pub content_hash: String,
    pub received_at: UtcTimestamp,
    pub quota_used: QuotaUsed,
    pub reported_resolution: ReportedResolution,
    pub quantization: QuantizationSemantics,
    pub resets_at: Option<UtcTimestamp>,
}

/// Two readings, as positions, and whether both end a settled plateau.
#[derive(Debug, Clone, Copy, PartialEq, Eq, Structural)]
pub struct IntervalPair {
    pub start: usize,
    pub end: usize,
    pub settled: bool,
}

/// A reading as the settlement detector takes it.
pub open spec fn meter_reading(observation: PassiveObservation) -> SettlementMeterObservation {
    SettlementMeterObservation {
        at: observation.received_at,
        quota_used: observation.quota_used,
        reported_resolution: observation.reported_resolution,
    }
}

/// Whether the three readings from a position on form a settled plateau, under the
/// conservative criterion for the resolution of the first reading of all.
pub open spec fn settles(observations: Seq<PassiveObservation>, i: int) -> bool {
    settlement_of(
        seq![
            meter_reading(observations[i]),
            meter_reading(observations[i + 1]),
            meter_reading(observations[i + 2]),
        ],
        observations[i].received_at,
        SettlementCoverage::Complete,
        conservative_criterion(observations[0].reported_resolution),
    ) is Settled
}

/// The last position of each settled plateau that starts below `n`.
pub open spec fn plateau_ends(observations: Seq<PassiveObservation>, n: int) -> Seq<int>
    decreases n,
{
    if n <= 0 {
        Seq::empty()
    } else {
        let before = plateau_ends(observations, n - 1);
        if settles(observations, n - 1) {
            before.push(n + 1)
        } else {
            before
        }
    }
}

/// The ends of all settled plateaus.
pub open spec fn settled_ends(observations: Seq<PassiveObservation>) -> Seq<int> {
    plateau_ends(observations, observations.len() - 2)
}

/// How many intervals there are between some readings.
pub open spec fn pair_count(observations: Seq<PassiveObservation>) -> int {
    let ends = settled_ends(observations);
    if observations.len() < 2 {
        0
    } else if ends.len() >= 2 {
        ends.len() - 1
    } else {
        observations.len() - 1
    }
}

/// The interval at a position: between neighbouring plateau ends where two settled,
/// and between neighbouring readings otherwise.
pub open spec fn pair_at(observations: Seq<PassiveObservation>, i: int) -> (int, int, bool) {
    let ends = settled_ends(observations);
    if ends.len() >= 2 {
        (ends[i], ends[i + 1], true)
    } else {
        (i, i + 1, false)
    }
}

fn settles_at(
    observations: &Vec<PassiveObservation>,
    policy: &SettlementPolicy,
    i: usize,
) -> (settled: bool)
    requires
        i + 2 < observations@.len(),
        policy.for_role(SettlementRole::Baseline) == conservative_criterion(
            observations@[0].reported_resolution,
        ),
    ensures
        settled == settles(observations@, i as int),
{
    let mut readings: Vec<SettlementMeterObservation> = Vec::new();
    let mut k: usize = i;
    let total: usize = observations.len();
    while k < i + 3
        invariant
            i <= k <= i + 3,
            i + 2 < total,
            total == observations@.len(),
            readings@.len() == k - i,
            forall|m: int|
                0 <= m < readings@.len() ==> #[trigger] readings@[m] == meter_reading(
                    observations@[i + m],
                ),
        decreases i + 3 - k,
    {
        readings.push(
            SettlementMeterObservation::new(
                observations[k].received_at,
                observations[k].quota_used,
                observations[k].reported_resolution,
            ),
        );
        k = k + 1;
    }
    assert(readings@ =~= seq![
        meter_reading(observations@[i as int]),
        meter_reading(observations@[i + 1]),
        meter_reading(observations@[i + 2]),
    ]);
    let series: SettlementObservationSeries = SettlementObservationSeries::complete(
        observations[i].received_at,
        readings,
    );
    detect_settlement(&series, policy, SettlementRole::Baseline).is_settled()
}

/// Pairs readings into intervals.
pub fn interval_pairs(observations: &Vec<PassiveObservation>) -> (pairs: Vec<IntervalPair>)
    ensures
        pairs@.len() == pair_count(observations@),
        forall|i: int|
            0 <= i < pairs@.len() ==> {
                let pair = #[trigger] pairs@[i];
                &&& pair.start < pair.end < observations@.len()
                &&& (pair.start as int, pair.end as int, pair.settled) == pair_at(observations@, i)
            },
{
    let mut pairs: Vec<IntervalPair> = Vec::new();
    if observations.len() < 2 {
        return pairs;
    }
    let policy: SettlementPolicy = SettlementPolicy::conservative_default(
        observations[0].reported_resolution,
    );
    let mut ends: Vec<usize> = Vec::new();
    let ghost mut found: Seq<int> = Seq::empty();
    let total: usize = observations.len();
    let last: usize = total - 2;
    let mut i: usize = 0;
    while i < last
        invariant
            i <= last,
            last == total - 2,
            total == observations@.len(),
            policy.for_role(SettlementRole::Baseline) == conservative_criterion(
                observations@[0].reported_resolution,
            ),
            found == plateau_ends(observations@, i as int),
            ends@.len() == found.len(),
            forall|k: int| 0 <= k < ends@.len() ==> #[trigger] ends@[k] == found[k],
            forall|k: int| 0 <= k < ends@.len() ==> #[trigger] ends@[k] < i + 2,
            forall|j: int, k: int|
                0 <= j < k < ends@.len() ==> #[trigger] ends@[j] < #[trigger] ends@[k],
        decreases last - i,
    {
        if settles_at(observations, &policy, i) {
            ends.push(i + 2);
            proof {
                found = found.push(i + 2);
            }
        }
        i = i + 1;
    }
    if ends.len() >= 2 {
        let count: usize = ends.len();
        let mut k: usize = 0;
        while k < count - 1
            invariant
                k <= count - 1,
                count >= 2,
                count == ends@.len(),
                observations@.len() >= 2,
                pairs@.len() == k,
                found == settled_ends(observations@),
                ends@.len() == found.len(),
                forall|m: int| 0 <= m < ends@.len() ==> #[trigger] ends@[m] == found[m],
                forall|m: int|
                    0 <= m < ends@.len() ==> #[trigger] ends@[m] < observations@.len(),
                forall|j: int, m: int|
                    0 <= j < m < ends@.len() ==> #[trigger] ends@[j] < #[trigger] ends@[m],
                forall|m: int|
                    0 <= m < pairs@.len() ==> {
                        let pair = #[trigger] pairs@[m];
                        &&& pair.start < pair.end < observations@.len()
                        &&& (pair.start as int, pair.end as int, pair.settled) == pair_at(
                            observations@,
                            m,
                        )
                    },
            decreases ends@.len() - k,
        {
            assert(ends@[k as int] < ends@[k + 1]);
            pairs.push(IntervalPair { start: ends[k], end: ends[k + 1], settled: true });
            k = k + 1;
        }
    } else {
        let mut k: usize = 0;
        while k < total - 1
            invariant
                k <= total - 1,
                total >= 2,
                total == observations@.len(),
                pairs@.len() == k,
                settled_ends(observations@).len() < 2,
                forall|m: int|
                    0 <= m < pairs@.len() ==> {
                        let pair = #[trigger] pairs@[m];
                        &&& pair.start < pair.end < observations@.len()
                        &&& (pair.start as int, pair.end as int, pair.settled) == pair_at(
                            observations@,
                            m,
                        )
                    },
            decreases observations@.len() - k,
        {
            pairs.push(IntervalPair { start: k, end: k + 1, settled: false });
            k = k + 1;
        }
    }
    pairs
}

/// Whether a window was reset between two readings: a reading names a reset strictly
/// between them, or the quota fell by more than the resolution of the first.
pub open spec fn reset_between(observations: Seq<PassiveObservation>, start: int, end: int) -> bool {
    ||| exists|k: int|
        start <= k <= end && reset_within(
            #[trigger] observations[k],
            observations[start].received_at,
            observations[end].received_at,
        )
    ||| observations[end].quota_used@ < observations[start].quota_used@
        - observations[start].reported_resolution@
}

/// Whether a reading names a reset strictly inside an interval.
pub open spec fn reset_within(
    observation: PassiveObservation,
    start_at: UtcTimestamp,
    end_at: UtcTimestamp,
) -> bool {
    observation.resets_at is Some && start_at.nanos < observation.resets_at->0.nanos < end_at.nanos
}

fn has_reset_inside(observations: &Vec<PassiveObservation>, start: usize, end: usize) -> (reset:
    bool)
    requires
        start < end < observations@.len(),
    ensures
        reset == reset_between(observations@, start as int, end as int),
{
    let start_at: UtcTimestamp = observations[start].received_at;
    let end_at: UtcTimestamp = observations[end].received_at;
    let total: usize = observations.len();
    let mut k: usize = start;
    while k <= end
        invariant
            start <= k <= end + 1,
            start < end < total,
            total == observations@.len(),
            start_at == observations@[start as int].received_at,
            end_at == observations@[end as int].received_at,
            forall|m: int|
                start <= m < k ==> !reset_within(#[trigger] observations@[m], start_at, end_at),
        decreases end + 1 - k,
    {
        match observations[k].resets_at {
            Some(at) => {
                if at.unix_nanos() > start_at.unix_nanos() && at.unix_nanos()
                    < end_at.unix_nanos() {
                    assert(reset_within(observations@[k as int], start_at, end_at));
                    return true;
                }
            },
            None => {},
        }
        k = k + 1;
    }
    let first: u32 = observations[start].quota_used.as_ppm().get();
    let last: u32 = observations[end].quota_used.as_ppm().get();
    let step: u32 = observations[start].reported_resolution.as_ppm().get();
    (last as i64) < first as i64 - step as i64
}

/// Whether a marker was put on an account by inference.
pub open spec fn inferred_designation(designation: Seq<char>) -> bool {
    designation == "conservative_temporal_inference"@ || designation == "unattributed"@
        || designation == "inferred"@
}

/// Whether usage in an interval is attributed by inference: some evidence class is
/// known and not eligible, or some marker was put there by inference.
pub open spec fn attribution_inferred(
    class_eligible: Seq<Option<bool>>,
    designations: Seq<String>,
) -> bool {
    ||| exists|i: int| 0 <= i < class_eligible.len() && #[trigger] class_eligible[i] == Some(false)
    ||| exists|i: int|
        0 <= i < designations.len() && inferred_designation((#[trigger] designations[i])@)
}

/// Whether usage in an interval is attributed by inference. Each evidence class is
/// given as whether it is eligible, or as nothing where it is not known.
pub fn has_inferred_attribution(
    class_eligible: &Vec<Option<bool>>,
    designations: &Vec<String>,
) -> (inferred: bool)
    ensures
        inferred == attribution_inferred(class_eligible@, designations@),
{
    let mut i: usize = 0;
    while i < class_eligible.len()
        invariant
            i <= class_eligible@.len(),
            forall|k: int| 0 <= k < i ==> #[trigger] class_eligible@[k] != Some(false),
        decreases class_eligible@.len() - i,
    {
        match class_eligible[i] {
            Some(eligible) => {
                if !eligible {
                    assert(class_eligible@[i as int] == Some(false));
                    return true;
                }
            },
            None => {},
        }
        i = i + 1;
    }
    let mut k: usize = 0;
    while k < designations.len()
        invariant
            k <= designations@.len(),
            forall|m: int| 0 <= m < k ==> !inferred_designation((#[trigger] designations@[m])@),
        decreases designations@.len() - k,
    {
        let designation: &str = designations[k].as_str();
        if same_text(designation, "conservative_temporal_inference") || same_text(
            designation,
            "unattributed",
        ) || same_text(designation, "inferred") {
            assert(inferred_designation(designations@[k as int]@));
            return true;
        }
        k = k + 1;
    }
    false
}

/// One component row of usage in an interval.
#[derive(Debug, Clone, PartialEq, Eq)]
pub struct PassiveUsage {
    pub evidence_kind: String,
    pub token_class: String,
    pub count: u64,
}

/// Whether a row was estimated or reconstructed rather than measured.
pub open spec fn is_estimate(row: PassiveUsage) -> bool {
    row.evidence_kind@ == "estimated"@ || begins_with(row.evidence_kind@, "reconstructed"@)
        || begins_with(row.evidence_kind@, "estimate"@)
}

/// What so many tokens of a class cost in millionths of a credit, to the nearest with
/// halves up: 3 credits for a million input tokens, 15 for output, 0.3 for cache reads
/// and 3.75 for cache writes.
pub open spec fn token_micros(kind: TokenKind, count: int) -> int {
    match kind {
        TokenKind::Input => 3 * count,
        TokenKind::Output => 15 * count,
        TokenKind::CacheRead => (3 * count + 5) / 10,
        TokenKind::CacheWrite => (15 * count + 2) / 4,
    }
}

/// What a row costs, as far as representable; rows of unknown classes cost nothing.
pub open spec fn row_micros(row: PassiveUsage) -> int {
    match TokenKind::named(row.token_class@) {
        Some(kind) => {
            let micros = token_micros(kind, row.count as int);
            if micros > i64::MAX {
                i64::MAX as int
            } else {
                micros
            }
        },
        None => 0,
    }
}

/// What the first `n` rows cost together.
pub open spec fn usage_micros(rows: Seq<PassiveUsage>, n: int) -> int
    decreases n,
{
    if n <= 0 {
        0
    } else {
        usage_micros(rows, n - 1) + row_micros(rows[n - 1])
    }
}

/// What usage in an interval comes to.
#[derive(Debug, Clone, Copy, PartialEq, Eq, Structural)]
pub struct UsageSummary {
    pub has_estimated_tokens: bool,
    pub has_unknown_token_components: bool,
    pub contributing_credits: Credits,
}

fn cost_of(row: &PassiveUsage, kind: TokenKind) -> (micros: i64)
    requires
        TokenKind::named(row.token_class@) == Some(kind),
    ensures
        micros == row_micros(*row),
        micros >= 0,
{
    let count: u128 = row.count as u128;
    let micros: u128 = match kind {
        TokenKind::Input => 3 * count,
        TokenKind::Output => 15 * count,
        TokenKind::CacheRead => (3 * count + 5) / 10,
        TokenKind::CacheWrite => (15 * count + 2) / 4,
    };
    let most: u128 = i64::MAX as u128;
    if micros > most {
        i64::MAX
    } else {
        micros as i64
    }
}

proof fn lemma_usage_grows(rows: Seq<PassiveUsage>, m: int, n: int)
    requires
        0 <= m <= n <= rows.len(),
    ensures
        0 <= usage_micros(rows, m) <= usage_micros(rows, n),
    decreases n,
{
    if n > 0 {
        assert(row_micros(rows[n - 1]) >= 0) by {
            let count = rows[n - 1].count as int;
            assert((3 * count + 5) / 10 >= 0 && (15 * count + 2) / 4 >= 0);
        }
        if m < n {
            lemma_usage_grows(rows, m, n - 1);
        } else {
            lemma_usage_grows(rows, m - 1, n - 1);
        }
    }
}

/// Sums up the usage of an interval; nothing where its cost is not representable.
pub fn summarize_usage(rows: &Vec<PassiveUsage>) -> (summary: Option<UsageSummary>)
    ensures
        match summary {
            Some(s) => {
                &&& s.has_estimated_tokens == exists|i: int|
                    0 <= i < rows@.len() && is_estimate(#[trigger] rows@[i])
                &&& s.has_unknown_token_components == exists|i: int|
                    0 <= i < rows@.len() && TokenKind::named(
                        (#[trigger] rows@[i]).token_class@,
                    ) is None
                &&& s.contributing_credits.micros == usage_micros(rows@, rows@.len() as int)
            },
            None => usage_micros(rows@, rows@.len() as int) > i64::MAX,
        },
{
    let mut estimated: bool = false;
    let mut unknown: bool = false;
    let mut total: i64 = 0;
    let mut i: usize = 0;
    while i < rows.len()
        invariant
            i <= rows@.len(),
            estimated == exists|k: int| 0 <= k < i && is_estimate(#[trigger] rows@[k]),
            unknown == exists|k: int|
                0 <= k < i && TokenKind::named((#[trigger] rows@[k]).token_class@) is None,
            total == usage_micros(rows@, i as int),
        decreases rows@.len() - i,
    {
        let row: &PassiveUsage = &rows[i];
        let kind: &str = row.evidence_kind.as_str();
        if same_text(kind, "estimated") || starts_with(kind, "reconstructed") || starts_with(
            kind,
            "estimate",
        ) {
            assert(is_estimate(rows@[i as int]));
            estimated = true;
        }
        match TokenKind::from_name(row.token_class.as_str()) {
            Some(class) => {
                match total.checked_add(cost_of(row, class)) {
                    Some(next) => {
                        total = next;
                    },
                    None => {
                        proof {
                            lemma_usage_grows(rows@, i + 1, rows@.len() as int);
                            lemma_usage_grows(rows@, i as int, i + 1);
                        }
                        return None;
                    },
                }
            },
            None => {
                assert(TokenKind::named(rows@[i as int].token_class@) is None);
                unknown = true;
            },
        }
        i = i + 1;
    }
    Some(
        UsageSummary {
            has_estimated_tokens: estimated,
            has_unknown_token_components: unknown,
            contributing_credits: Credits::from_micros(total),
        },
    )
}

/// A recorded anomaly of an account's window.
#[derive(Debug, Clone, Copy, PartialEq, Eq, Structural)]
pub struct AnomalyExclusion {
    pub account_id: i64,
    pub interval_start_at: UtcTimestamp,
    pub interval_end_at: UtcTimestamp,
    /// The anomaly, where its record can still be read.
    pub kind: Option<WindowAnomalyKind>,
}

/// Whether an anomaly touches an interval of an account.
pub open spec fn touches(
    exclusion: AnomalyExclusion,
    account_id: i64,
    start_at: UtcTimestamp,
    end_at: UtcTimestamp,
) -> bool {
    &&& exclusion.account_id == account_id
    &&& exclusion.interval_start_at.nanos < end_at.nanos
    &&& exclusion.interval_end_at.nanos > start_at.nanos
    &&& exclusion.kind is Some
}

/// The anomalies that touch an interval of an account, in order.
pub open spec fn anomalies_touching(
    exclusions: Seq<AnomalyExclusion>,
    account_id: i64,
    start_at: UtcTimestamp,
    end_at: UtcTimestamp,
) -> Seq<WindowAnomalyKind>
    decreases exclusions.len(),
{
    if exclusions.len() == 0 {
        Seq::empty()
    } else {
        let before = anomalies_touching(exclusions.drop_last(), account_id, start_at, end_at);
        if touches(exclusions.last(), account_id, start_at, end_at) {
            before.push(exclusions.last().kind->0)
        } else {
            before
        }
    }
}

fn collect_anomalies(
    exclusions: &Vec<AnomalyExclusion>,
    account_id: i64,
    start_at: UtcTimestamp,
    end_at: UtcTimestamp,
) -> (kinds: Vec<WindowAnomalyKind>)
    ensures
        kinds@ == anomalies_touching(exclusions@, account_id, start_at, end_at),
{
    let mut kinds: Vec<WindowAnomalyKind> = Vec::new();
    let mut i: usize = 0;
    assert(exclusions@.take(0) =~= Seq::empty());
    while i < exclusions.len()
        invariant
            i <= exclusions@.len(),
            kinds@ == anomalies_touching(
                exclusions@.take(i as int),
                account_id,
                start_at,
                end_at,
            ),
        decreases exclusions@.len() - i,
    {
        assert(exclusions@.take(i + 1).drop_last() =~= exclusions@.take(i as int));
        let exclusion: AnomalyExclusion = exclusions[i];
        if exclusion.account_id == account_id && exclusion.interval_start_at.unix_nanos()
            < end_at.unix_nanos() && exclusion.interval_end_at.unix_nanos()
            > start_at.unix_nanos() {
            match exclusion.kind {
                Some(kind) => {
                    kinds.push(kind);
                },
                None => {},
            }
        }
        i = i + 1;
    }
    assert(exclusions@.take(exclusions@.len() as int) =~= exclusions@);
    kinds
}

/// The account and window whose intervals are built.
#[derive(Debug, Clone, PartialEq, Eq)]
pub struct PassiveScope {
    pub account_id: i64,
    pub account_name: String,
    pub provider: ProviderKey,
    pub plan_tier: PlanTier,
    pub window_semantic_key: WindowSemanticKey,
    /// Whether the account's configuration permits passive fitting.
    pub permits_passive: bool,
}

/// What a ledger holds about one interval.
#[derive(Debug, Clone, PartialEq, Eq)]
pub struct IntervalFacts {
    pub overlapping_sessions: u64,
    pub class_eligible: Vec<Option<bool>>,
    pub designations: Vec<String>,
    pub usage: UsageSummary,
    pub has_external_validation_mismatch: bool,
}

/// Whether an observation is a reading without credits.
pub open spec fn bare_reading(reading: PassiveObservation, out: FitObservation) -> bool {
    &&& out.evidence_id@ == reading.content_hash@
    &&& out.at == reading.received_at
    &&& out.quota_used_ppm == reading.quota_used@
    &&& out.reported_resolution_ppm == reading.reported_resolution@
    &&& out.quantization == reading.quantization
    &&& out.cumulative_credits.micros == 0
}

fn bare(reading: &PassiveObservation) -> (out: FitObservation)
    ensures
        bare_reading(*reading, out),
{
    FitObservation::new(
        EvidenceId::new(reading.content_hash.as_str()),
        reading.received_at,
        reading.quota_used.as_ppm().get() as i64,
        reading.reported_resolution.as_ppm().get() as i64,
        reading.quantization,
        Credits::from_micros(0),
    )
}

/// Whether an interval says of a pair of readings what the ledger holds about it.
pub open spec fn describes(
    interval: CandidateInterval,
    scope: PassiveScope,
    observations: Seq<PassiveObservation>,
    pair: (int, int, bool),
    exclusions: Seq<AnomalyExclusion>,
    facts: IntervalFacts,
) -> bool {
    let (start, end, settled) = pair;
    &&& interval.interval_id@ == scope.account_name@ + "-"@ + decimal(start as nat) + "-"@
        + decimal(end as nat)
    &&& interval.account_id == scope.account_id
    &&& interval.account_name@ == scope.account_name@
    &&& interval.provider@ == scope.provider@
    &&& interval.plan_tier@ == scope.plan_tier@
    &&& interval.window_semantic_key@ == scope.window_semantic_key@
    &&& interval.start_at == observations[start].received_at
    &&& interval.end_at == observations[end].received_at
    &&& interval.start_observation is Some
    &&& bare_reading(observations[start], interval.start_observation->0)
    &&& interval.end_observation is Some
    &&& bare_reading(observations[end], interval.end_observation->0)
    &&& interval.start_settled == settled
    &&& interval.end_settled == settled
    &&& interval.plan_tier_start@ == scope.plan_tier@
    &&& interval.plan_tier_end@ == scope.plan_tier@
    &&& interval.reset_inside == reset_between(observations, start, end)
    &&& interval.meter_coverage_complete
    &&& interval.exclusivity_permits_passive == scope.permits_passive
    &&& interval.has_overlapping_session_or_consumer == (facts.overlapping_sessions > 1)
    &&& interval.has_inferred_account_attribution == attribution_inferred(
        facts.class_eligible@,
        facts.designations@,
    )
    &&& interval.has_estimated_tokens == facts.usage.has_estimated_tokens
    &&& interval.has_unknown_token_components == facts.usage.has_unknown_token_components
    &&& interval.contributing_credits == facts.usage.contributing_credits
    &&& interval.anomaly_exclusions@ == anomalies_touching(
        exclusions,
        scope.account_id,
        interval.start_at,
        interval.end_at,
    )
    &&& interval.has_external_validation_mismatch == facts.has_external_validation_mismatch
}

/// Builds one interval from a pair of readings and what the ledger holds about it.
pub fn candidate_interval(
    scope: &PassiveScope,
    observations: &Vec<PassiveObservation>,
    pair: IntervalPair,
    exclusions: &Vec<AnomalyExclusion>,
    facts: &IntervalFacts,
) -> (interval: CandidateInterval)
    requires
        pair.start < pair.end < observations@.len(),
    ensures
        describes(
            interval,
            *scope,
            observations@,
            (pair.start as int, pair.end as int, pair.settled),
            exclusions@,
            *facts,
        ),
{
    let start: &PassiveObservation = &observations[pair.start];
    let end: &PassiveObservation = &observations[pair.end];
    let mut interval_id: String = scope.account_name.clone();
    interval_id.append("-");
    interval_id.append(decimal_text(pair.start as u128).as_str());
    interval_id.append("-");
    interval_id.append(decimal_text(pair.end as u128).as_str());
    CandidateInterval {
        interval_id,
        account_id: scope.account_id,
        account_name: scope.account_name.clone(),
        provider: scope.provider.clone(),
        plan_tier: scope.plan_tier.clone(),
        window_semantic_key: scope.window_semantic_key.clone(),
        start_at: start.received_at,
        end_at: end.received_at,
        start_observation: Some(bare(start)),
        end_observation: Some(bare(end)),
        start_settled: pair.settled,
        end_settled: pair.settled,
        plan_tier_start: scope.plan_tier.clone(),
        plan_tier_end: scope.plan_tier.clone(),
        reset_inside: has_reset_inside(observations, pair.start, pair.end),
        meter_coverage_complete: true,
        exclusivity_permits_passive: scope.permits_passive,
        has_overlapping_session_or_consumer: facts.overlapping_sessions > 1,
        has_inferred_account_attribution: has_inferred_attribution(
            &facts.class_eligible,
            &facts.designations,
        ),
        has_estimated_tokens: facts.usage.has_estimated_tokens,
        has_unknown_token_components: facts.usage.has_unknown_token_components,
        contributing_credits: facts.usage.contributing_credits,
        anomaly_exclusions: collect_anomalies(
            exclusions,
            scope.account_id,
            start.received_at,
            end.received_at,
        ),
        has_external_validation_mismatch: facts.has_external_validation_mismatch,
    }
}

/// Builds the intervals of a window of an account: one for each pair of readings, in
/// order, from what the ledger holds about each.
pub fn window_intervals(
    scope: &PassiveScope,
    observations: &Vec<PassiveObservation>,
    exclusions: &Vec<AnomalyExclusion>,
    facts: &Vec<IntervalFacts>,
) -> (intervals: Vec<CandidateInterval>)
    requires
        facts@.len() == pair_count(observations@),
    ensures
        intervals@.len() == pair_count(observations@),
        forall|i: int|
            0 <= i < intervals@.len() ==> describes(
                #[trigger] intervals@[i],
                *scope,
                observations@,
                pair_at(observations@, i),
                exclusions@,
                facts@[i],
            ),
{
    let pairs: Vec<IntervalPair> = interval_pairs(observations);
    let mut intervals: Vec<CandidateInterval> = Vec::new();
    let mut i: usize = 0;
    while i < pairs.len()
        invariant
            i <= pairs@.len(),
            pairs@.len() == facts@.len(),
            intervals@.len() == i,
            forall|k: int|
                0 <= k < pairs@.len() ==> {
                    let pair = #[trigger] pairs@[k];
                    &&& pair.start < pair.end < observations@.len()
                    &&& (pair.start as int, pair.end as int, pair.settled) == pair_at(
                        observations@,
                        k,
                    )
                },
            forall|k: int|
                0 <= k < i ==> describes(
                    #[trigger] intervals@[k],
                    *scope,
                    observations@,
                    pair_at(observations@, k),
                    exclusions@,
                    facts@[k],
                ),
        decreases pairs@.len() - i,
    {
        let pair: IntervalPair = pairs[i];
        assert(pair == pairs@[i as int]);
        intervals.push(candidate_interval(scope, observations, pair, exclusions, &facts[i]));
        i = i + 1;
    }
    intervals
}

/// Intervals join end to end: each starts where the one before ended.
pub proof fn law_intervals_join(observations: Seq<PassiveObservation>, i: int)
    requires
        0 <= i,
        i + 1 < pair_count(observations),
    ensures
        pair_at(observations, i).1 == pair_at(observations, i + 1).0,
{
}

/// Settled plateaus are preferred over neighbouring readings: an interval is marked
/// settled exactly where at least two plateaus settled.
pub proof fn law_settled_regions_are_preferred(observations: Seq<PassiveObservation>, i: int)
    requires
        0 <= i < pair_count(observations),
    ensures
        pair_at(observations, i).2 <==> settled_ends(observations).len() >= 2,
{
}

/// Three readings in order of time settle exactly where each comes at least five minutes
/// after the one before, all within an hour, all at the resolution of the first reading of
/// the window, and no two a whole step of it apart.
pub proof fn law_three_quiet_readings_settle(observations: Seq<PassiveObservation>, i: int)
    requires
        0 <= i,
        i + 2 < observations.len(),
        observations[0].reported_resolution@ > 0,
        observations[i].received_at.nanos <= observations[i + 1].received_at.nanos
            <= observations[i + 2].received_at.nanos,
    ensures
        settles(observations, i) <==> {
            let (a, b, c) = (observations[i], observations[i + 1], observations[i + 2]);
            let step = observations[0].reported_resolution;
            &&& b.received_at.nanos - a.received_at.nanos >= 300_000_000_000
            &&& c.received_at.nanos - b.received_at.nanos >= 300_000_000_000
            &&& c.received_at.nanos - a.received_at.nanos <= 3_600_000_000_000
            &&& a.reported_resolution == step
            &&& b.reported_resolution == step
            &&& c.reported_resolution == step
            &&& -step@ < a.quota_used@ - b.quota_used@ < step@
            &&& -step@ < a.quota_used@ - c.quota_used@ < step@
            &&& -step@ < b.quota_used@ - c.quota_used@ < step@
        },
{
    let (a, b, c) = (observations[i], observations[i + 1], observations[i + 2]);
    let three = seq![meter_reading(a), meter_reading(b), meter_reading(c)];
    let criterion = conservative_criterion(observations[0].reported_resolution);
    let step = observations[0].reported_resolution;
    law_conservative_criterion_in_figures(step);
    law_conservative_defaults_are_published(step);
    let deadline = deadline_after(a.received_at, criterion.window());
    let order = chronology(three, a.received_at, deadline);
    law_chronology_is_time_order(three, a.received_at, deadline);
    law_one_step_beyond_tolerance_is_material(three[0], three[1], criterion);
    law_one_step_beyond_tolerance_is_material(three[0], three[2], criterion);
    law_one_step_beyond_tolerance_is_material(three[1], three[2], criterion);
    reveal_with_fuel(first_plateau, 2);
    if c.received_at.nanos - a.received_at.nanos <= 3_600_000_000_000 {
        assert(order.contains(0) && order.contains(1) && order.contains(2));
        lemma_three_in_order(three, order);
        assert(order =~= seq![0, 1, 2]);
        if plateau(three, order, criterion, 0) {
            assert(spaced(three, order, criterion, 0));
            assert(spaced(three, order, criterion, 1));
            assert(three[order[0]].reported_resolution == step);
            assert(three[order[1]].reported_resolution == step);
            assert(three[order[2]].reported_resolution == step);
            assert(steady(three[order[0]], three[order[1]], criterion));
            assert(steady(three[order[0]], three[order[2]], criterion));
            assert(steady(three[order[1]], three[order[2]], criterion));
        }
    } else {
        assert(!order.contains(2));
        assert(order.len() < 3) by {
            if order.len() >= 3 {
                assert(order.contains(order[0]) && order.contains(order[1]) && order.contains(
                    order[2],
                ));
                assert(order[0] != order[1] && order[1] != order[2] && order[0] != order[2]);
            }
        }
    }
}

proof fn lemma_three_in_order(three: Seq<SettlementMeterObservation>, order: Seq<int>)
    requires
        three.len() == 3,
        three[0].at.nanos <= three[1].at.nanos <= three[2].at.nanos,
        order.no_duplicates(),
        order.len() <= 3,
        arranged(order, no_later(three)),
        order.contains(0),
        order.contains(1),
        order.contains(2),
    ensures
        order.len() == 3,
        order[0] == 0,
        order[1] == 1,
        order[2] == 2,
{
    let leq = no_later(three);
    let p = choose|p: int| 0 <= p < order.len() && order[p] == 0;
    let q = choose|q: int| 0 <= q < order.len() && order[q] == 1;
    let r = choose|r: int| 0 <= r < order.len() && order[r] == 2;
    assert(leq(0, 1) && leq(1, 2) && leq(0, 2));
    if q < p {
        assert(leq(order[q], order[p]) && (leq(order[p], order[q]) ==> order[q] < order[p]));
    }
    if r < q {
        assert(leq(order[r], order[q]) && (leq(order[q], order[r]) ==> order[r] < order[q]));
    }
    if r < p {
        assert(leq(order[r], order[p]) && (leq(order[p], order[r]) ==> order[r] < order[p]));
    }
    assert(p < q < r);
}

/// The settled ends of a window are, in order, the third of each three consecutive
/// readings that settle, and no others.
pub proof fn law_settled_ends_close_quiet_readings(observations: Seq<PassiveObservation>, k: int)
    ensures
        settled_ends(observations).contains(k) <==> 2 <= k < observations.len() && settles(
            observations,
            k - 2,
        ),
        forall|i: int, j: int|
            #![trigger settled_ends(observations)[i], settled_ends(observations)[j]]
            0 <= i < j < settled_ends(observations).len() ==> settled_ends(observations)[i]
                < settled_ends(observations)[j],
{
    lemma_plateau_ends(observations, observations.len() - 2, k);
}

proof fn lemma_plateau_ends(observations: Seq<PassiveObservation>, n: int, k: int)
    ensures
        plateau_ends(observations, n).contains(k) <==> 2 <= k < n + 2 && settles(
            observations,
            k - 2,
        ),
        forall|i: int|
            0 <= i < plateau_ends(observations, n).len() ==> #[trigger] plateau_ends(
                observations,
                n,
            )[i] < n + 2,
        forall|i: int, j: int|
            #![trigger plateau_ends(observations, n)[i], plateau_ends(observations, n)[j]]
            0 <= i < j < plateau_ends(observations, n).len() ==> plateau_ends(observations, n)[i]
                < plateau_ends(observations, n)[j],
    decreases n,
{
    if n > 0 {
        lemma_plateau_ends(observations, n - 1, k);
        let before = plateau_ends(observations, n - 1);
        let all = plateau_ends(observations, n);
        if settles(observations, n - 1) {
            assert(all[before.len() as int] == n + 1);
            if before.contains(k) {
                let i = choose|i: int| 0 <= i < before.len() && before[i] == k;
                assert(all[i] == k);
            }
            if all.contains(k) {
                let i = choose|i: int| 0 <= i < all.len() && all[i] == k;
                if i < before.len() {
                    assert(before[i] == k);
                }
            }
        }
    }
}

/// Where two or more ends settled, the intervals run from each to the next, and both their
/// boundaries are settled. Otherwise they run from each reading to the next, and neither
/// is. Fewer than two readings make no interval.
pub proof fn law_intervals_run_from_end_to_end(observations: Seq<PassiveObservation>, i: int)
    requires
        0 <= i < pair_count(observations),
    ensures
        observations.len() >= 2,
        settled_ends(observations).len() >= 2 ==> pair_count(observations) == settled_ends(
            observations,
        ).len() - 1 && pair_at(observations, i) == (
            settled_ends(observations)[i],
            settled_ends(observations)[i + 1],
            true,
        ),
        settled_ends(observations).len() < 2 ==> pair_count(observations) == observations.len() - 1
            && pair_at(observations, i) == (i, i + 1, false),
        0 <= pair_at(observations, i).0 < pair_at(observations, i).1 < observations.len(),
{
    let ends = settled_ends(observations);
    if ends.len() >= 2 {
        law_settled_ends_close_quiet_readings(observations, ends[i]);
        law_settled_ends_close_quiet_readings(observations, ends[i + 1]);
        assert(ends.contains(ends[i]) && ends.contains(ends[i + 1]));
        assert(ends[i] < ends[i + 1]);
    }
}

/// A reset lies inside an interval where a reading of it announces one strictly between
/// its ends, or where the meter ends more than its first resolution below where it began;
/// and nowhere else.
pub proof fn law_a_reset_is_announced_or_seen(
    observations: Seq<PassiveObservation>,
    start: int,
    end: int,
)
    requires
        0 <= start < end < observations.len(),
    ensures
        reset_between(observations, start, end) <==> {
            ||| observations[end].quota_used@ + observations[start].reported_resolution@
                < observations[start].quota_used@
            ||| exists|k: int|
                start <= k <= end && ((#[trigger] observations[k]).resets_at matches Some(at)
                    && observations[start].received_at.nanos < at.nanos
                    && at.nanos < observations[end].received_at.nanos)
        },
{
    if exists|k: int|
        start <= k <= end && ((#[trigger] observations[k]).resets_at matches Some(at)
            && observations[start].received_at.nanos < at.nanos && at.nanos
            < observations[end].received_at.nanos) {
        let k = choose|k: int|
            start <= k <= end && ((#[trigger] observations[k]).resets_at matches Some(at)
                && observations[start].received_at.nanos < at.nanos && at.nanos
                < observations[end].received_at.nanos);
        assert(reset_within(
            observations[k],
            observations[start].received_at,
            observations[end].received_at,
        ));
    }
    if exists|k: int|
        start <= k <= end && reset_within(
            #[trigger] observations[k],
            observations[start].received_at,
            observations[end].received_at,
        ) {
        let k = choose|k: int|
            start <= k <= end && reset_within(
                #[trigger] observations[k],
                observations[start].received_at,
                observations[end].received_at,
            );
        assert(observations[k].resets_at is Some);
    }
}

/// A token costs three micros going in and fifteen coming out; one read from a cache costs
/// three tenths of a micro and one written to it three and three quarters, both rounded to
/// the nearest whole micro, halves upwards.
pub proof fn law_token_prices(count: int)
    requires
        count >= 0,
    ensures
        token_micros(TokenKind::Input, count) == count + count + count,
        token_micros(TokenKind::Output, count) == 5 * token_micros(TokenKind::Input, count),
        3 * count - 10 * token_micros(TokenKind::CacheRead, count) >= -5,
        3 * count - 10 * token_micros(TokenKind::CacheRead, count) < 5,
        15 * count - 4 * token_micros(TokenKind::CacheWrite, count) >= -2,
        15 * count - 4 * token_micros(TokenKind::CacheWrite, count) < 2,
        token_micros(TokenKind::CacheRead, 10 * count) == count + count + count,
        token_micros(TokenKind::CacheWrite, 4 * count) == 5 * (count + count + count),
{
}

/// Usage adds up row by row: each row of a known class costs what its tokens do, as far as
/// representable, and one of an unknown class nothing.
pub proof fn law_each_row_costs_its_tokens(rows: Seq<PassiveUsage>, last: PassiveUsage)
    ensures
        usage_micros(Seq::empty(), 0) == 0,
        usage_micros(rows.push(last), rows.len() as int + 1) == usage_micros(
            rows,
            rows.len() as int,
        ) + row_micros(last),
        last.token_class@ != "input"@ && last.token_class@ != "output"@ && last.token_class@
            != "cache_read"@ && last.token_class@ != "cache_write"@ ==> row_micros(last) == 0,
        last.token_class@ == "input"@ && 3 * last.count <= i64::MAX ==> row_micros(last) == 3
            * last.count,
        last.token_class@ == "output"@ && 15 * last.count <= i64::MAX ==> row_micros(last) == 15
            * last.count,
        last.token_class@ == "cache_read"@ && token_micros(
            TokenKind::CacheRead,
            last.count as int,
        ) <= i64::MAX ==> row_micros(last) == token_micros(
            TokenKind::CacheRead,
            last.count as int,
        ),
        last.token_class@ == "cache_write"@ && token_micros(
            TokenKind::CacheWrite,
            last.count as int,
        ) <= i64::MAX ==> row_micros(last) == token_micros(
            TokenKind::CacheWrite,
            last.count as int,
        ),
        0 <= row_micros(last) <= i64::MAX,
{
    lemma_usage_prefix(rows, rows.push(last), rows.len() as int);
    law_token_classes_have_their_own_names(last.token_class@, TokenKind::Input);
    law_token_classes_have_their_own_names(last.token_class@, TokenKind::Output);
    law_token_classes_have_their_own_names(last.token_class@, TokenKind::CacheRead);
    law_token_classes_have_their_own_names(last.token_class@, TokenKind::CacheWrite);
}

proof fn lemma_usage_prefix(shorter: Seq<PassiveUsage>, longer: Seq<PassiveUsage>, n: int)
    requires
        n <= shorter.len(),
        n <= longer.len(),
        forall|i: int| 0 <= i < n ==> shorter[i] == #[trigger] longer[i],
    ensures
        usage_micros(shorter, n) == usage_micros(longer, n),
    decreases n,
{
    if n > 0 {
        lemma_usage_prefix(shorter, longer, n - 1);
        assert(shorter[n - 1] == longer[n - 1]);
    }
}

/// Usage counts as estimated where it says so, or says that it was reconstructed or is an
/// estimate of some kind; and not where it is observed.
pub proof fn law_estimates_say_so(row: PassiveUsage, kind: Seq<char>)
    ensures
        row.evidence_kind@ == "estimated"@ ==> is_estimate(row),
        row.evidence_kind@ == "reconstructed"@ + kind ==> is_estimate(row),
        row.evidence_kind@ == "estimate"@ + kind ==> is_estimate(row),
        is_estimate(row) ==> row.evidence_kind@.len() > 0 && (row.evidence_kind@[0] == 'e'
            || row.evidence_kind@[0] == 'r'),
        is_estimate(row) && row.evidence_kind@[0] == 'e' ==> row.evidence_kind@.len() >= 8,
        is_estimate(row) && row.evidence_kind@[0] == 'r' ==> row.evidence_kind@.len() >= 13,
{
    reveal_strlit("estimated");
    reveal_strlit("reconstructed");
    reveal_strlit("estimate");
    let text = row.evidence_kind@;
    assert(("reconstructed"@ + kind).take("reconstructed"@.len() as int) =~= "reconstructed"@);
    assert(("estimate"@ + kind).take("estimate"@.len() as int) =~= "estimate"@);
    if begins_with(text, "reconstructed"@) {
        assert(text.take(13)[0] == text[0]);
    }
    if begins_with(text, "estimate"@) {
        assert(text.take(8)[0] == text[0]);
    }
}

/// Attribution is inferred where some usage is of a class that is not eligible, or some
/// session was placed by inference or by nothing; and only there.
pub proof fn law_attribution_is_inferred_where_any_is(
    class_eligible: Seq<Option<bool>>,
    designations: Seq<String>,
    i: int,
)
    ensures
        0 <= i < class_eligible.len() && class_eligible[i] == Some(false) ==> attribution_inferred(
            class_eligible,
            designations,
        ),
        0 <= i < designations.len() && (designations[i]@ == "conservative_temporal_inference"@
            || designations[i]@ == "unattributed"@ || designations[i]@ == "inferred"@)
            ==> attribution_inferred(class_eligible, designations),
        (forall|k: int|
            0 <= k < class_eligible.len() ==> #[trigger] class_eligible[k] != Some(false)) && (
        forall|k: int|
            0 <= k < designations.len() ==> (#[trigger] designations[k])@
                != "conservative_temporal_inference"@ && designations[k]@ != "unattributed"@
                && designations[k]@ != "inferred"@) ==> !attribution_inferred(
            class_eligible,
            designations,
        ),
{
    if 0 <= i < designations.len() {
        assert(inferred_designation(designations[i]@) || !inferred_designation(designations[i]@));
    }
}

/// An anomaly touches an interval exactly where it is the account's own, can still be
/// read, begins before the interval ends and ends after the interval begins; and each
/// that does is kept, in the order given.
pub proof fn law_anomalies_touch_what_they_overlap(
    exclusions: Seq<AnomalyExclusion>,
    last: AnomalyExclusion,
    account_id: i64,
    start_at: UtcTimestamp,
    end_at: UtcTimestamp,
)
    ensures
        anomalies_touching(Seq::empty(), account_id, start_at, end_at).len() == 0,
        anomalies_touching(exclusions.push(last), account_id, start_at, end_at)
            == match last.kind {
            Some(kind) => if last.account_id == account_id && last.interval_start_at.nanos
                < end_at.nanos && start_at.nanos < last.interval_end_at.nanos {
                anomalies_touching(exclusions, account_id, start_at, end_at).push(kind)
            } else {
                anomalies_touching(exclusions, account_id, start_at, end_at)
            },
            None => anomalies_touching(exclusions, account_id, start_at, end_at),
        },
{
    assert(exclusions.push(last).drop_last() =~= exclusions);
}

/// An interval carries the facts of its two readings, its scope and its usage, each in its
/// own place; more than one session overlaps only where two do.
pub proof fn law_an_interval_carries_its_facts(
    interval: CandidateInterval,
    scope: PassiveScope,
    observations: Seq<PassiveObservation>,
    pair: (int, int, bool),
    exclusions: Seq<AnomalyExclusion>,
    facts: IntervalFacts,
)
    requires
        describes(interval, scope, observations, pair, exclusions, facts),
    ensures
        interval.start_at.nanos == observations[pair.0].received_at.nanos,
        interval.end_at.nanos == observations[pair.1].received_at.nanos,
        interval.start_observation matches Some(reading) && reading.evidence_id@
            == observations[pair.0].content_hash@ && reading.at.nanos
            == observations[pair.0].received_at.nanos && reading.quota_used_ppm
            == observations[pair.0].quota_used@ && reading.reported_resolution_ppm
            == observations[pair.0].reported_resolution@ && reading.quantization
            == observations[pair.0].quantization && reading.cumulative_credits.micros == 0,
        interval.end_observation matches Some(reading) && reading.evidence_id@
            == observations[pair.1].content_hash@ && reading.at.nanos
            == observations[pair.1].received_at.nanos && reading.quota_used_ppm
            == observations[pair.1].quota_used@ && reading.reported_resolution_ppm
            == observations[pair.1].reported_resolution@ && reading.quantization
            == observations[pair.1].quantization && reading.cumulative_credits.micros == 0,
        interval.start_settled == pair.2,
        interval.end_settled == pair.2,
        interval.interval_id@ == scope.account_name@ + "-"@ + decimal(pair.0 as nat) + "-"@
            + decimal(pair.1 as nat),
        interval.account_id == scope.account_id,
        interval.account_name@ == scope.account_name@,
        interval.provider@ == scope.provider@,
        interval.plan_tier@ == scope.plan_tier@,
        interval.plan_tier_start@ == scope.plan_tier@,
        interval.plan_tier_end@ == scope.plan_tier@,
        interval.window_semantic_key@ == scope.window_semantic_key@,
        interval.exclusivity_permits_passive == scope.permits_passive,
        interval.meter_coverage_complete,
        interval.reset_inside == reset_between(observations, pair.0, pair.1),
        interval.has_overlapping_session_or_consumer <==> facts.overlapping_sessions >= 2,
        interval.has_inferred_account_attribution == attribution_inferred(
            facts.class_eligible@,
            facts.designations@,
        ),
        interval.has_estimated_tokens == facts.usage.has_estimated_tokens,
        interval.has_unknown_token_components == facts.usage.has_unknown_token_components,
        interval.contributing_credits.micros == facts.usage.contributing_credits.micros,
        interval.anomaly_exclusions@ == anomalies_touching(
            exclusions,
            scope.account_id,
            observations[pair.0].received_at,
            observations[pair.1].received_at,
        ),
        interval.has_external_validation_mismatch == facts.has_external_validation_mismatch,
{
}

/// Without a filter every name passes; a filter lets its own name through and no other.
pub proof fn law_a_filter_passes_its_own_name(filter: &str, a: Seq<char>, b: Seq<char>)
    ensures
        passes(None, a),
        passes(Some(filter), filter@),
        passes(Some(filter), a) && passes(Some(filter), b) ==> a == b,
{
}

} // verus!
