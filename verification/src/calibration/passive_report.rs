//! The report of a passive calibration: how many intervals counted, how often each
//! condition failed, what was left out and why, and what a fit would run on.

use crate::calibration::fitter::FitObservation;
use crate::calibration::passive::{
    eligible, eligible_count, evaluate_interval, exclusion_reasons, reason_views,
    CandidateInterval, PassiveExclusionReason, ReasonView,
};
use crate::calibration::settlement::{
    conservative_criterion, law_conservative_criterion_in_figures,
    law_conservative_defaults_are_published, SettlementPolicy,
    SettlementRole,
};
use crate::domain::{Credits, QuotaFractionPpm, ReportedResolution, UtcTimestamp};
use crate::error::{Error, ErrorView};
use crate::ids::{BillingSemanticsId, ExperimentId, MeterSemanticsId};
use crate::records::{
    excluded_views, CalibrationExperiment, ExcludedSample, ExcludedView, ValidityInterval,
    WindowCalibrationCandidate,
};
use crate::sets::{join_texts, joined, texts};
use crate::text::same_text;
use vstd::prelude::*;
use vstd::string::*;

verus! {

/// How often a condition failed.
#[derive(Debug, Clone, Copy, PartialEq, Eq)]
pub struct FailingCount {
    pub key: &'static str,
    pub count: usize,
}

/// The report of a passive calibration.
#[derive(Debug, PartialEq, Eq)]
pub struct PassiveCalibrationReport {
    pub intervals_considered: usize,
    pub eligible_intervals: usize,
    pub excluded_intervals: usize,
    pub failing_condition_counts: Vec<FailingCount>,
    pub candidate: Option<WindowCalibrationCandidate>,
    pub candidate_excluded_samples: Vec<ExcludedSample>,
}

impl PassiveCalibrationReport {
    /// How often the condition of a name failed, where it is counted.
    pub fn failing_count(&self, key: &str) -> (count: Option<usize>)
        ensures
            match count {
                Some(n) => exists|i: int|
                    0 <= i < self.failing_condition_counts@.len() && (
                    #[trigger] self.failing_condition_counts@[i]).key@ == key@
                        && self.failing_condition_counts@[i].count == n,
                None => forall|i: int|
                    0 <= i < self.failing_condition_counts@.len() ==> (
                    #[trigger] self.failing_condition_counts@[i]).key@ != key@,
            },
    {
        let mut i: usize = 0;
        while i < self.failing_condition_counts.len()
            invariant
                i <= self.failing_condition_counts@.len(),
                forall|k: int|
                    0 <= k < i ==> (#[trigger] self.failing_condition_counts@[k]).key@ != key@,
            decreases self.failing_condition_counts@.len() - i,
        {
            if same_text(self.failing_condition_counts[i].key, key) {
                assert(self.failing_condition_counts@[i as int].key@ == key@);
                return Some(self.failing_condition_counts[i].count);
            }
            i = i + 1;
        }
        None
    }
}

/// The names that are counted, in order.
pub open spec fn counted_keys() -> Seq<Seq<char>> {
    seq![
        "exact_contributing_usage"@,
        "exclusivity_policy_permits_passive"@,
        "external_validation_mismatch"@,
        "high_confidence_account_attribution"@,
        "meter_observations_on_both_sides"@,
        "meter_window_anomaly"@,
        "no_reset_inside"@,
        "no_second_local_session_or_consumer"@,
        "no_unknown_token_components"@,
        "server_side_settlement_satisfied"@,
        "sufficient_meter_coverage"@,
        "unchanged_plan_tier"@,
    ]
}

/// Every reason is counted under one of the names.
pub proof fn law_every_reason_is_counted(reason: ReasonView)
    ensures
        counted_keys().contains(reason.key()),
{
    let keys = counted_keys();
    let key = reason.key();
    assert(keys[0] == key || keys[1] == key || keys[2] == key || keys[3] == key || keys[4] == key
        || keys[5] == key || keys[6] == key || keys[7] == key || keys[8] == key || keys[9] == key
        || keys[10] == key || keys[11] == key);
}

/// How often a name stands in a list.
pub open spec fn occurrences(names: Seq<Seq<char>>, name: Seq<char>) -> nat
    decreases names.len(),
{
    if names.len() == 0 {
        0
    } else {
        occurrences(names.drop_last(), name) + if names.last() == name {
            1nat
        } else {
            0nat
        }
    }
}

/// The names of some reasons.
pub open spec fn keys_of(reasons: Seq<ReasonView>) -> Seq<Seq<char>> {
    reasons.map_values(|r: ReasonView| r.key())
}

/// The lines of some reasons.
pub open spec fn lines_of(reasons: Seq<ReasonView>) -> Seq<Seq<char>> {
    reasons.map_values(|r: ReasonView| r.text())
}

/// The names of all reasons against some intervals.
pub open spec fn all_keys(intervals: Seq<CandidateInterval>) -> Seq<Seq<char>>
    decreases intervals.len(),
{
    if intervals.len() == 0 {
        Seq::empty()
    } else {
        all_keys(intervals.drop_last()) + keys_of(exclusion_reasons(intervals.last()))
    }
}

/// The intervals left out, each with all reasons against it.
pub open spec fn left_out(intervals: Seq<CandidateInterval>) -> Seq<ExcludedView>
    decreases intervals.len(),
{
    if intervals.len() == 0 {
        Seq::empty()
    } else {
        let before = left_out(intervals.drop_last());
        let last = intervals.last();
        if eligible(last) {
            before
        } else {
            before.push(
                ExcludedView {
                    sample_ref: "interval-"@ + last.interval_id@,
                    reason: joined(lines_of(exclusion_reasons(last)), "; "@),
                },
            )
        }
    }
}

/// What some names say.
pub open spec fn name_views(names: Seq<&'static str>) -> Seq<Seq<char>> {
    names.map_values(|n: &'static str| n@)
}

proof fn lemma_lines_are_not_empty(reasons: Seq<ReasonView>)
    requires
        reasons.len() > 0,
    ensures
        joined(lines_of(reasons), "; "@).len() > 0,
{
    reveal_strlit(": ");
    reveal_strlit("): ");
    reveal_strlit("external_validation_mismatch: ");
    let lines = lines_of(reasons);
    let last = reasons.last();
    assert(lines.last() == last.text());
    assert(last.text().len() > 0);
    if lines.len() == 1 {
        assert(lines[0] == lines.last());
    }
}

fn summary_of(reasons: &Vec<PassiveExclusionReason>) -> (summary: String)
    ensures
        summary@ == joined(lines_of(reason_views(reasons@)), "; "@),
{
    let ghost lines = lines_of(reason_views(reasons@));
    let mut parts: Vec<String> = Vec::new();
    let mut i: usize = 0;
    assert(texts(parts@) =~= lines.take(0));
    while i < reasons.len()
        invariant
            i <= reasons@.len(),
            lines == lines_of(reason_views(reasons@)),
            texts(parts@) == lines.take(i as int),
        decreases reasons@.len() - i,
    {
        let ghost before = parts@;
        parts.push(reasons[i].message());
        assert(texts(parts@) =~= lines.take(i + 1)) by {
            assert(texts(parts@) =~= texts(before).push(parts@.last()@));
        }
        i = i + 1;
    }
    assert(lines.take(reasons@.len() as int) =~= lines);
    join_texts(&parts, "; ")
}

fn note_keys(names: &mut Vec<&'static str>, reasons: &Vec<PassiveExclusionReason>)
    ensures
        name_views(final(names)@) == name_views(old(names)@) + keys_of(reason_views(reasons@)),
{
    let ghost before = name_views(names@);
    let ghost keys = keys_of(reason_views(reasons@));
    let mut i: usize = 0;
    assert(before + keys.take(0) =~= before);
    while i < reasons.len()
        invariant
            i <= reasons@.len(),
            keys == keys_of(reason_views(reasons@)),
            name_views(names@) == before + keys.take(i as int),
        decreases reasons@.len() - i,
    {
        let ghost so_far = names@;
        names.push(reasons[i].condition_key());
        assert(name_views(names@) =~= before + keys.take(i + 1)) by {
            assert(name_views(names@) =~= name_views(so_far).push(names@.last()@));
            assert(keys.take(i + 1) =~= keys.take(i as int).push(keys[i as int]));
        }
        i = i + 1;
    }
    assert(keys.take(reasons@.len() as int) =~= keys);
}

fn count_key(names: &Vec<&'static str>, key: &'static str) -> (entry: FailingCount)
    ensures
        entry.key@ == key@,
        entry.count == occurrences(name_views(names@), key@),
{
    let ghost views = name_views(names@);
    let mut count: usize = 0;
    let mut i: usize = 0;
    assert(views.take(0) =~= Seq::empty());
    while i < names.len()
        invariant
            i <= names@.len(),
            views == name_views(names@),
            count <= i,
            count == occurrences(views.take(i as int), key@),
        decreases names@.len() - i,
    {
        assert(views.take(i + 1).drop_last() =~= views.take(i as int));
        assert(views.take(i + 1).last() == names@[i as int]@);
        if same_text(names[i], key) {
            count = count + 1;
        }
        i = i + 1;
    }
    assert(views.take(names@.len() as int) =~= views);
    FailingCount { key, count }
}

fn count_keys(names: &Vec<&'static str>) -> (counts: Vec<FailingCount>)
    ensures
        counts@.len() == counted_keys().len(),
        forall|i: int|
            0 <= i < counts@.len() ==> (#[trigger] counts@[i]).key@ == counted_keys()[i]
                && counts@[i].count == occurrences(name_views(names@), counted_keys()[i]),
{
    vec![
        count_key(names, "exact_contributing_usage"),
        count_key(names, "exclusivity_policy_permits_passive"),
        count_key(names, "external_validation_mismatch"),
        count_key(names, "high_confidence_account_attribution"),
        count_key(names, "meter_observations_on_both_sides"),
        count_key(names, "meter_window_anomaly"),
        count_key(names, "no_reset_inside"),
        count_key(names, "no_second_local_session_or_consumer"),
        count_key(names, "no_unknown_token_components"),
        count_key(names, "server_side_settlement_satisfied"),
        count_key(names, "sufficient_meter_coverage"),
        count_key(names, "unchanged_plan_tier"),
    ]
}

/// Reports on intervals with the candidate that was fitted from those that count.
pub fn evaluate_and_report_passive_intervals(
    intervals: &Vec<CandidateInterval>,
    candidate: Option<WindowCalibrationCandidate>,
) -> (report: PassiveCalibrationReport)
    ensures
        report.intervals_considered == intervals@.len(),
        report.eligible_intervals == eligible_count(intervals@),
        report.eligible_intervals + report.excluded_intervals == report.intervals_considered,
        report.failing_condition_counts@.len() == counted_keys().len(),
        forall|i: int|
            0 <= i < counted_keys().len() ==> (#[trigger] report.failing_condition_counts@[i]).key@
                == counted_keys()[i] && report.failing_condition_counts@[i].count == occurrences(
                all_keys(intervals@),
                counted_keys()[i],
            ),
        report.candidate == candidate,
        excluded_views(report.candidate_excluded_samples@) == left_out(intervals@),
{
    let mut names: Vec<&'static str> = Vec::new();
    let mut samples: Vec<ExcludedSample> = Vec::new();
    let mut counted: usize = 0;
    let mut i: usize = 0;
    proof {
        assert(intervals@.take(0) =~= Seq::empty());
        assert(name_views(names@) =~= Seq::empty());
        assert(excluded_views(samples@) =~= Seq::empty());
        reveal_strlit("interval-");
    }
    while i < intervals.len()
        invariant
            i <= intervals@.len(),
            counted <= i,
            counted == eligible_count(intervals@.take(i as int)),
            name_views(names@) == all_keys(intervals@.take(i as int)),
            excluded_views(samples@) == left_out(intervals@.take(i as int)),
            "interval-"@.len() > 0,
        decreases intervals@.len() - i,
    {
        let interval: &CandidateInterval = &intervals[i];
        let ghost next = intervals@.take(i + 1);
        assert(next.drop_last() =~= intervals@.take(i as int));
        assert(next.last() == *interval);
        let reasons: Vec<PassiveExclusionReason> = evaluate_interval(interval);
        assert(reason_views(reasons@).len() == reasons@.len());
        note_keys(&mut names, &reasons);
        if reasons.len() == 0 {
            counted = counted + 1;
        } else {
            let mut sample_ref: String = "interval-".to_owned();
            sample_ref.append(interval.interval_id.as_str());
            let summary: String = summary_of(&reasons);
            proof {
                lemma_lines_are_not_empty(exclusion_reasons(*interval));
            }
            let ghost before = samples@;
            match ExcludedSample::new(sample_ref.as_str(), summary.as_str()) {
                Some(sample) => {
                    samples.push(sample);
                    assert(excluded_views(samples@) =~= excluded_views(before).push(sample@));
                },
                None => {},
            }
        }
        i = i + 1;
    }
    assert(intervals@.take(intervals@.len() as int) =~= intervals@);
    PassiveCalibrationReport {
        intervals_considered: intervals.len(),
        eligible_intervals: counted,
        excluded_intervals: intervals.len() - counted,
        failing_condition_counts: count_keys(&names),
        candidate,
        candidate_excluded_samples: samples,
    }
}

/// What a passive fit runs on.
#[derive(Debug, PartialEq, Eq)]
pub struct PassiveFitInputs {
    pub observations: Vec<FitObservation>,
    pub experiment: CalibrationExperiment,
}

/// The intervals that count, in order.
pub open spec fn counting(intervals: Seq<CandidateInterval>) -> Seq<CandidateInterval>
    decreases intervals.len(),
{
    if intervals.len() == 0 {
        Seq::empty()
    } else {
        let before = counting(intervals.drop_last());
        if eligible(intervals.last()) {
            before.push(intervals.last())
        } else {
            before
        }
    }
}

/// The credits of the first `n` intervals together.
pub open spec fn credits_of_first(intervals: Seq<CandidateInterval>, n: int) -> int
    decreases n,
{
    if n <= 0 {
        0
    } else {
        credits_of_first(intervals, n - 1) + intervals[n - 1].contributing_credits.micros
    }
}

/// Whether the running total of credits stays representable.
pub open spec fn totals_fit(intervals: Seq<CandidateInterval>) -> bool {
    forall|n: int|
        0 <= n <= intervals.len() ==> i64::MIN <= #[trigger] credits_of_first(intervals, n)
            <= i64::MAX
}

/// Whether an observation is a boundary reading with a total of credits.
pub open spec fn rebased(boundary: FitObservation, total: int, out: FitObservation) -> bool {
    &&& out.evidence_id@ == boundary.evidence_id@
    &&& out.at == boundary.at
    &&& out.quota_used_ppm == boundary.quota_used_ppm
    &&& out.reported_resolution_ppm == boundary.reported_resolution_ppm
    &&& out.quantization == boundary.quantization
    &&& out.cumulative_credits.micros == total
}

/// Whether observations run through the intervals that count: from the start of the
/// first with no credits, then the end of each with the credits spent by then.
pub open spec fn runs_through(counted: Seq<CandidateInterval>, out: Seq<FitObservation>) -> bool {
    if counted.len() == 0 {
        out.len() == 0
    } else {
        &&& out.len() == counted.len() + 1
        &&& rebased(counted[0].start_observation->0, 0, out[0])
        &&& forall|i: int|
            0 <= i < counted.len() ==> #[trigger] ends_with(counted, out, i)
    }
}

/// Whether the observation after an interval is its end with the credits by then.
pub open spec fn ends_with(counted: Seq<CandidateInterval>, out: Seq<FitObservation>, i: int) -> bool {
    rebased(counted[i].end_observation->0, credits_of_first(counted, i + 1), out[i + 1])
}

fn rebase(boundary: &FitObservation, total: i64) -> (out: FitObservation)
    ensures
        rebased(*boundary, total as int, out),
{
    FitObservation::new(
        boundary.evidence_id.clone(),
        boundary.at,
        boundary.quota_used_ppm,
        boundary.reported_resolution_ppm,
        boundary.quantization,
        Credits::from_micros(total),
    )
}

proof fn lemma_eligible_has_boundaries(interval: CandidateInterval)
    requires
        eligible(interval),
    ensures
        interval.start_observation is Some,
        interval.end_observation is Some,
{
    crate::calibration::passive::law_every_failed_condition_is_reported(
        interval,
        crate::calibration::passive::PassiveEligibilityCondition::MeterObservationsOnBothSides,
    );
    assert(interval.meets(
        crate::calibration::passive::PassiveEligibilityCondition::MeterObservationsOnBothSides,
    ));
}

proof fn lemma_credits_of_push(intervals: Seq<CandidateInterval>, next: CandidateInterval, n: int)
    requires
        0 <= n <= intervals.len(),
    ensures
        credits_of_first(intervals.push(next), n) == credits_of_first(intervals, n),
    decreases n,
{
    if n > 0 {
        lemma_credits_of_push(intervals, next, n - 1);
        assert(intervals.push(next)[n - 1] == intervals[n - 1]);
    }
}

proof fn lemma_counting_prefix(intervals: Seq<CandidateInterval>, n: int)
    requires
        0 <= n <= intervals.len(),
    ensures
        counting(intervals.take(n)).len() <= counting(intervals).len(),
        counting(intervals).take(counting(intervals.take(n)).len() as int) == counting(
            intervals.take(n),
        ),
    decreases intervals.len(),
{
    if n == intervals.len() {
        assert(intervals.take(n) =~= intervals);
        assert(counting(intervals).take(counting(intervals).len() as int) =~= counting(intervals));
    } else {
        let shorter = intervals.drop_last();
        lemma_counting_prefix(shorter, n);
        assert(shorter.take(n) =~= intervals.take(n));
        let k = counting(shorter.take(n)).len() as int;
        assert(counting(intervals).take(k) =~= counting(shorter).take(k));
    }
}

proof fn lemma_credits_of_take(intervals: Seq<CandidateInterval>, k: int, n: int)
    requires
        0 <= n <= k <= intervals.len(),
    ensures
        credits_of_first(intervals.take(k), n) == credits_of_first(intervals, n),
    decreases n,
{
    if n > 0 {
        lemma_credits_of_take(intervals, k, n - 1);
    }
}

/// Whether the running total of credits of the intervals that count stays representable.
pub fn passive_totals_fit(intervals: &Vec<CandidateInterval>) -> (fits: bool)
    ensures
        fits == totals_fit(counting(intervals@)),
{
    let mut total: i64 = 0;
    let mut i: usize = 0;
    assert(intervals@.take(0) =~= Seq::empty());
    while i < intervals.len()
        invariant
            i <= intervals@.len(),
            totals_fit(counting(intervals@.take(i as int))),
            total == credits_of_first(
                counting(intervals@.take(i as int)),
                counting(intervals@.take(i as int)).len() as int,
            ),
        decreases intervals@.len() - i,
    {
        let interval: &CandidateInterval = &intervals[i];
        let ghost before = counting(intervals@.take(i as int));
        let ghost after = counting(intervals@.take(i + 1));
        proof {
            assert(intervals@.take(i + 1).drop_last() =~= intervals@.take(i as int));
        }
        let reasons: Vec<PassiveExclusionReason> = evaluate_interval(interval);
        assert(reason_views(reasons@).len() == reasons@.len());
        if reasons.len() == 0 {
            proof {
                assert(after == before.push(*interval));
                lemma_credits_of_push(before, *interval, before.len() as int);
                lemma_counting_prefix(intervals@, i + 1);
                lemma_credits_of_take(
                    counting(intervals@),
                    after.len() as int,
                    after.len() as int,
                );
            }
            total = match total.checked_add(interval.contributing_credits.micros()) {
                Some(sum) => sum,
                None => {
                    assert(!(i64::MIN <= credits_of_first(
                        counting(intervals@),
                        after.len() as int,
                    ) <= i64::MAX));
                    return false;
                },
            };
            proof {
                assert forall|n: int| 0 <= n <= after.len() implies i64::MIN
                    <= #[trigger] credits_of_first(after, n) <= i64::MAX by {
                    if n <= before.len() {
                        lemma_credits_of_push(before, *interval, n);
                    }
                }
            }
        }
        i = i + 1;
    }
    assert(intervals@.take(intervals@.len() as int) =~= intervals@);
    true
}

/// The observations of a passive fit.
fn passive_observations(intervals: &Vec<CandidateInterval>) -> (out: Vec<FitObservation>)
    requires
        totals_fit(counting(intervals@)),
    ensures
        runs_through(counting(intervals@), out@),
{
    let mut out: Vec<FitObservation> = Vec::new();
    let mut total: i64 = 0;
    let mut i: usize = 0;
    assert(intervals@.take(0) =~= Seq::empty());
    while i < intervals.len()
        invariant
            i <= intervals@.len(),
            totals_fit(counting(intervals@)),
            runs_through(counting(intervals@.take(i as int)), out@),
            total == credits_of_first(
                counting(intervals@.take(i as int)),
                counting(intervals@.take(i as int)).len() as int,
            ),
        decreases intervals@.len() - i,
    {
        let interval: &CandidateInterval = &intervals[i];
        let ghost before = counting(intervals@.take(i as int));
        let ghost after = counting(intervals@.take(i + 1));
        proof {
            assert(intervals@.take(i + 1).drop_last() =~= intervals@.take(i as int));
        }
        let reasons: Vec<PassiveExclusionReason> = evaluate_interval(interval);
        assert(reason_views(reasons@).len() == reasons@.len());
        if reasons.len() == 0 {
            proof {
                lemma_eligible_has_boundaries(*interval);
                assert(after == before.push(*interval));
                lemma_credits_of_push(before, *interval, before.len() as int);
                lemma_counting_prefix(intervals@, i + 1);
                lemma_credits_of_take(
                    counting(intervals@),
                    after.len() as int,
                    after.len() as int,
                );
                assert(i64::MIN <= credits_of_first(counting(intervals@), after.len() as int)
                    <= i64::MAX);
            }
            let start: &FitObservation = interval.start_observation.as_ref().unwrap();
            let end: &FitObservation = interval.end_observation.as_ref().unwrap();
            let ghost earlier = out@;
            if out.len() == 0 {
                out.push(rebase(start, total));
            }
            let ghost opened = out@;
            total = total + interval.contributing_credits.micros();
            out.push(rebase(end, total));
            proof {
                assert forall|k: int| 0 <= k < after.len() implies #[trigger] ends_with(
                    after,
                    out@,
                    k,
                ) by {
                    if k < before.len() {
                        assert(ends_with(before, earlier, k));
                        lemma_credits_of_push(before, *interval, k + 1);
                        assert(out@[k + 1] == earlier[k + 1]);
                        assert(after[k] == before[k]);
                    }
                }
            }
        }
        i = i + 1;
    }
    assert(intervals@.take(intervals@.len() as int) =~= intervals@);
    out
}

/// The earliest moment of some observations.
pub open spec fn earliest(observations: Seq<FitObservation>) -> UtcTimestamp
    decreases observations.len(),
{
    if observations.len() <= 1 {
        observations[0].at
    } else {
        let before = earliest(observations.drop_last());
        if observations.last().at.nanos < before.nanos {
            observations.last().at
        } else {
            before
        }
    }
}

/// The latest moment of some observations.
pub open spec fn latest(observations: Seq<FitObservation>) -> UtcTimestamp
    decreases observations.len(),
{
    if observations.len() <= 1 {
        observations[0].at
    } else {
        let before = latest(observations.drop_last());
        if observations.last().at.nanos > before.nanos {
            observations.last().at
        } else {
            before
        }
    }
}

fn time_span(observations: &Vec<FitObservation>) -> (span: (UtcTimestamp, UtcTimestamp))
    requires
        observations@.len() > 0,
    ensures
        span.0 == earliest(observations@),
        span.1 == latest(observations@),
{
    let mut from: UtcTimestamp = observations[0].at;
    let mut until: UtcTimestamp = observations[0].at;
    let mut i: usize = 1;
    while i < observations.len()
        invariant
            1 <= i <= observations@.len(),
            from == earliest(observations@.take(i as int)),
            until == latest(observations@.take(i as int)),
        decreases observations@.len() - i,
    {
        assert(observations@.take(i + 1).drop_last() =~= observations@.take(i as int));
        let at: UtcTimestamp = observations[i].at;
        if at.unix_nanos() < from.unix_nanos() {
            from = at;
        }
        if at.unix_nanos() > until.unix_nanos() {
            until = at;
        }
        i = i + 1;
    }
    assert(observations@.take(observations@.len() as int) =~= observations@);
    (from, until)
}

/// The resolution that a passive fit settles boundaries at: one percentage point.
pub const PASSIVE_RESOLUTION_PPM: i32 = 10_000;

/// Whether both roles of a policy take the conservative criterion at a resolution, and
/// for the reason that goes with it.
pub open spec fn conservative_at(policy: SettlementPolicy, step_ppm: int) -> bool {
    let criterion = policy.for_role(SettlementRole::Baseline);
    &&& criterion == conservative_criterion(criterion.resolution())
    &&& criterion.resolution()@ == step_ppm
    &&& policy.for_role(SettlementRole::Terminal) == criterion
    &&& policy.sharing_reason()
        == Some("baseline and terminal share the conservative provider-lag criterion"@)
}

/// Whether an experiment is the one a passive fit over some intervals stands for.
pub open spec fn passive_experiment(
    experiment: CalibrationExperiment,
    first: CandidateInterval,
    observations: Seq<FitObservation>,
    now: UtcTimestamp,
) -> bool {
    &&& experiment.id@ == "exp-passive-"@ + first.account_name@
    &&& experiment.provider@ == first.provider@
    &&& experiment.plan_tier@ == first.plan_tier@
    &&& experiment.window_semantic_key@ == first.window_semantic_key@
    &&& experiment.meter_semantics_id@ == "meter-semantics-v1"@
    &&& experiment.billing_semantics_id@ == "billing-semantics-v1"@
    &&& experiment.settlement_policy.version_text() == "settled-boundary-v1"@
    &&& conservative_at(experiment.settlement_policy, PASSIVE_RESOLUTION_PPM as int)
    &&& experiment.validity.start() == earliest(observations)
    &&& experiment.validity.end() == latest(observations)
    &&& experiment.knowledge_time == now
}

fn first_counting(intervals: &Vec<CandidateInterval>) -> (index: Option<usize>)
    ensures
        match index {
            Some(i) => {
                &&& i < intervals@.len()
                &&& counting(intervals@).len() > 0
                &&& intervals@[i as int] == counting(intervals@)[0]
            },
            None => counting(intervals@).len() == 0,
        },
{
    let mut i: usize = 0;
    assert(intervals@.take(0) =~= Seq::empty());
    while i < intervals.len()
        invariant
            i <= intervals@.len(),
            counting(intervals@.take(i as int)).len() == 0,
        decreases intervals@.len() - i,
    {
        let reasons: Vec<PassiveExclusionReason> = evaluate_interval(&intervals[i]);
        assert(reason_views(reasons@).len() == reasons@.len());
        proof {
            assert(intervals@.take(i + 1).drop_last() =~= intervals@.take(i as int));
            lemma_counting_prefix(intervals@, i + 1);
        }
        if reasons.len() == 0 {
            proof {
                let found = counting(intervals@.take(i + 1));
                assert(found[0] == intervals@[i as int]);
                assert(counting(intervals@).take(found.len() as int)[0] == counting(
                    intervals@,
                )[0]);
            }
            return Some(i);
        }
        i = i + 1;
    }
    assert(intervals@.take(intervals@.len() as int) =~= intervals@);
    None
}

/// What a fit over the intervals that count runs on: nothing where none counts. An
/// experiment needs a span of time, so readings that all lie at one moment are refused.
pub fn passive_fit_inputs(intervals: &Vec<CandidateInterval>, now: UtcTimestamp) -> (inputs: Result<
    Option<PassiveFitInputs>,
    Error,
>)
    requires
        totals_fit(counting(intervals@)),
    ensures
        match inputs {
            Ok(None) => counting(intervals@).len() == 0,
            Ok(Some(found)) => {
                &&& counting(intervals@).len() > 0
                &&& runs_through(counting(intervals@), found.observations@)
                &&& passive_experiment(
                    found.experiment,
                    counting(intervals@)[0],
                    found.observations@,
                    now,
                )
            },
            Err(error) => {
                &&& counting(intervals@).len() > 0
                &&& error@ == ErrorView::Store(
                    "invalid interval: validity must end after it starts"@,
                )
                &&& exists|observations: Seq<FitObservation>| #[trigger]
                    runs_through(counting(intervals@), observations) && earliest(
                        observations,
                    ).nanos >= latest(observations).nanos
            },
        },
{
    let index: usize = match first_counting(intervals) {
        Some(index) => index,
        None => {
            return Ok(None);
        },
    };
    let first: &CandidateInterval = &intervals[index];
    let observations: Vec<FitObservation> = passive_observations(intervals);
    let (from, until): (UtcTimestamp, UtcTimestamp) = time_span(&observations);
    let validity: ValidityInterval = match ValidityInterval::new(from, until) {
        Some(validity) => validity,
        None => {
            return Err(
                Error::Store("invalid interval: validity must end after it starts".to_owned()),
            );
        },
    };
    let step: QuotaFractionPpm = QuotaFractionPpm::new(PASSIVE_RESOLUTION_PPM).unwrap();
    let resolution: ReportedResolution = ReportedResolution::new(step).unwrap();
    proof {
        law_conservative_defaults_are_published(resolution);
    }
    let mut id: String = "exp-passive-".to_owned();
    id.append(first.account_name.as_str());
    let experiment: CalibrationExperiment = CalibrationExperiment {
        id: ExperimentId::new(id.as_str()),
        provider: first.provider.clone(),
        plan_tier: first.plan_tier.clone(),
        window_semantic_key: first.window_semantic_key.clone(),
        meter_semantics_id: MeterSemanticsId::new("meter-semantics-v1"),
        billing_semantics_id: BillingSemanticsId::new("billing-semantics-v1"),
        settlement_policy: SettlementPolicy::conservative_default(resolution),
        validity,
        knowledge_time: now,
    };
    Ok(Some(PassiveFitInputs { observations, experiment }))
}

/// Names are counted as often as they occur.
pub proof fn law_names_are_counted_as_often_as_they_occur(names: Seq<Seq<char>>, name: Seq<char>)
    ensures
        occurrences(names, name) == names.to_multiset().count(name),
    decreases names.len(),
{
    broadcast use vstd::seq_lib::group_to_multiset_ensures;

    if names.len() > 0 {
        let shorter = names.drop_last();
        law_names_are_counted_as_often_as_they_occur(shorter, name);
        assert(names =~= shorter.push(names.last()));
    }
}

proof fn lemma_occurrences_add_up(a: Seq<Seq<char>>, b: Seq<Seq<char>>, name: Seq<char>)
    ensures
        occurrences(a + b, name) == occurrences(a, name) + occurrences(b, name),
    decreases b.len(),
{
    if b.len() == 0 {
        assert(a + b =~= a);
    } else {
        lemma_occurrences_add_up(a, b.drop_last(), name);
        assert((a + b).drop_last() =~= a + b.drop_last());
    }
}

/// Each interval counts once, as eligible or as left out, and adds its own reasons and no
/// others: one more that is eligible adds to those that count, and one that is not is
/// named with all of its reasons.
pub proof fn law_each_interval_counts_once(
    intervals: Seq<CandidateInterval>,
    last: CandidateInterval,
    key: Seq<char>,
)
    ensures
        eligible_count(Seq::empty()) == 0,
        counting(Seq::empty()).len() == 0,
        left_out(Seq::empty()).len() == 0,
        all_keys(Seq::empty()).len() == 0,
        exclusion_reasons(last).len() == 0 ==> {
            &&& eligible_count(intervals.push(last)) == eligible_count(intervals) + 1
            &&& counting(intervals.push(last)) == counting(intervals).push(last)
            &&& left_out(intervals.push(last)) == left_out(intervals)
        },
        exclusion_reasons(last).len() > 0 ==> {
            &&& eligible_count(intervals.push(last)) == eligible_count(intervals)
            &&& counting(intervals.push(last)) == counting(intervals)
            &&& left_out(intervals.push(last)).len() == left_out(intervals).len() + 1
            &&& left_out(intervals.push(last)).drop_last() == left_out(intervals)
            &&& left_out(intervals.push(last)).last().sample_ref == "interval-"@
                + last.interval_id@
            &&& left_out(intervals.push(last)).last().reason == joined(
                lines_of(exclusion_reasons(last)),
                "; "@,
            )
        },
        occurrences(all_keys(intervals.push(last)), key) == occurrences(all_keys(intervals), key)
            + occurrences(keys_of(exclusion_reasons(last)), key),
{
    let all = intervals.push(last);
    assert(all.drop_last() =~= intervals);
    lemma_occurrences_add_up(all_keys(intervals), keys_of(exclusion_reasons(last)), key);
    if exclusion_reasons(last).len() > 0 {
        assert(left_out(all).drop_last() =~= left_out(intervals));
    }
}

/// Every interval that counts is eligible, every eligible one counts, and they keep their
/// order and number.
pub proof fn law_eligible_intervals_count(intervals: Seq<CandidateInterval>, i: int)
    ensures
        counting(intervals).len() == eligible_count(intervals),
        counting(intervals).len() + left_out(intervals).len() == intervals.len(),
        0 <= i < counting(intervals).len() ==> eligible(counting(intervals)[i])
            && intervals.contains(counting(intervals)[i]),
        0 <= i < intervals.len() && eligible(intervals[i]) ==> counting(intervals).contains(
            intervals[i],
        ),
    decreases intervals.len(),
{
    if intervals.len() > 0 {
        let shorter = intervals.drop_last();
        let before = counting(shorter);
        let all = counting(intervals);
        law_eligible_intervals_count(shorter, i);
        if 0 <= i < before.len() {
            let k = choose|k: int| 0 <= k < shorter.len() && shorter[k] == before[i];
            assert(intervals[k] == before[i]);
        }
        if 0 <= i < intervals.len() && eligible(intervals[i]) {
            if i < shorter.len() {
                assert(shorter[i] == intervals[i]);
                let k = choose|k: int| 0 <= k < before.len() && before[k] == intervals[i];
                assert(all[k] == intervals[i]);
            } else {
                assert(all[before.len() as int] == intervals[i]);
            }
        }
        assert(intervals[intervals.len() - 1] == intervals.last());
    }
}

proof fn lemma_credits_prefix(
    shorter: Seq<CandidateInterval>,
    longer: Seq<CandidateInterval>,
    n: int,
)
    requires
        n <= shorter.len(),
        n <= longer.len(),
        forall|i: int| 0 <= i < n ==> shorter[i] == #[trigger] longer[i],
    ensures
        credits_of_first(shorter, n) == credits_of_first(longer, n),
    decreases n,
{
    if n > 0 {
        lemma_credits_prefix(shorter, longer, n - 1);
        assert(shorter[n - 1] == longer[n - 1]);
    }
}

/// Credits accumulate over the intervals that count: none has none, and one more adds its
/// own.
pub proof fn law_interval_credits_accumulate(
    intervals: Seq<CandidateInterval>,
    last: CandidateInterval,
)
    ensures
        credits_of_first(Seq::empty(), 0) == 0,
        credits_of_first(intervals.push(last), intervals.len() as int + 1) == credits_of_first(
            intervals,
            intervals.len() as int,
        ) + last.contributing_credits.micros,
{
    lemma_credits_prefix(intervals, intervals.push(last), intervals.len() as int);
}

/// A passive fit reads the boundaries of the intervals that count, as they were recorded:
/// the start of the first without credits, and the end of each with the credits of all up
/// to it.
pub proof fn law_passive_fits_read_the_boundaries(
    counted: Seq<CandidateInterval>,
    out: Seq<FitObservation>,
    i: int,
)
    requires
        runs_through(counted, out),
        0 <= i < counted.len(),
    ensures
        out.len() == counted.len() + 1,
        out[0].cumulative_credits.micros == 0,
        counted[0].start_observation matches Some(start) ==> out[0].evidence_id@
            == start.evidence_id@ && out[0].at.nanos == start.at.nanos && out[0].quota_used_ppm
            == start.quota_used_ppm && out[0].reported_resolution_ppm
            == start.reported_resolution_ppm && out[0].quantization == start.quantization,
        out[i + 1].cumulative_credits.micros == out[i].cumulative_credits.micros
            + counted[i].contributing_credits.micros,
        counted[i].end_observation matches Some(end) ==> out[i + 1].evidence_id@
            == end.evidence_id@ && out[i + 1].at.nanos == end.at.nanos && out[i
            + 1].quota_used_ppm == end.quota_used_ppm && out[i + 1].reported_resolution_ppm
            == end.reported_resolution_ppm && out[i + 1].quantization == end.quantization,
{
    assert(ends_with(counted, out, i));
    reveal_with_fuel(credits_of_first, 2);
    if i > 0 {
        assert(ends_with(counted, out, i - 1));
    }
}

/// The span of some observations reaches from the earliest to the latest: each is the
/// moment of one of them, and none lies outside.
pub proof fn law_a_span_holds_every_observation(observations: Seq<FitObservation>)
    requires
        observations.len() > 0,
    ensures
        forall|i: int|
            0 <= i < observations.len() ==> earliest(observations).nanos <= (
            #[trigger] observations[i]).at.nanos <= latest(observations).nanos,
        exists|i: int|
            0 <= i < observations.len() && (#[trigger] observations[i]).at == earliest(
                observations,
            ),
        exists|i: int|
            0 <= i < observations.len() && (#[trigger] observations[i]).at == latest(observations),
    decreases observations.len(),
{
    let n = observations.len() - 1;
    if n == 0 {
        assert(observations[0].at == earliest(observations));
    } else {
        let shorter = observations.drop_last();
        law_a_span_holds_every_observation(shorter);
        assert forall|i: int| 0 <= i < observations.len() implies earliest(observations).nanos <= (
        #[trigger] observations[i]).at.nanos <= latest(observations).nanos by {
            if i < n {
                assert(shorter[i] == observations[i]);
            }
        }
        let first = choose|i: int|
            0 <= i < shorter.len() && (#[trigger] shorter[i]).at == earliest(shorter);
        let last = choose|i: int|
            0 <= i < shorter.len() && (#[trigger] shorter[i]).at == latest(shorter);
        assert(observations[first].at == earliest(shorter));
        assert(observations[last].at == latest(shorter));
        assert(observations[n].at == observations.last().at);
    }
}

/// A passive experiment is named for the account, taken from the first interval that
/// counts, settled by the conservative policy at one percent, valid from the first to the
/// last of its observations and known from now on.
pub proof fn law_a_passive_experiment_is_its_first_interval(
    experiment: CalibrationExperiment,
    first: CandidateInterval,
    observations: Seq<FitObservation>,
    now: UtcTimestamp,
)
    requires
        passive_experiment(experiment, first, observations, now),
    ensures
        experiment.id@ == "exp-passive-"@ + first.account_name@,
        experiment.provider@ == first.provider@,
        experiment.plan_tier@ == first.plan_tier@,
        experiment.window_semantic_key@ == first.window_semantic_key@,
        experiment.meter_semantics_id@ == "meter-semantics-v1"@,
        experiment.billing_semantics_id@ == "billing-semantics-v1"@,
        experiment.settlement_policy.version_text() == "settled-boundary-v1"@,
        experiment.settlement_policy.for_role(SettlementRole::Baseline).count() == 3,
        experiment.settlement_policy.for_role(SettlementRole::Baseline).spacing().nanos
            == 300_000_000_000,
        experiment.settlement_policy.for_role(SettlementRole::Baseline).resolution()@ == 10_000,
        experiment.settlement_policy.for_role(SettlementRole::Terminal)
            == experiment.settlement_policy.for_role(SettlementRole::Baseline),
        experiment.validity.start() == earliest(observations),
        experiment.validity.end() == latest(observations),
        experiment.knowledge_time == now,
{
    law_conservative_criterion_in_figures(
        experiment.settlement_policy.for_role(SettlementRole::Baseline).resolution(),
    );
}

proof fn lemma_credits_are_within(intervals: Seq<CandidateInterval>, most: int, n: int)
    requires
        0 <= n <= intervals.len(),
        forall|i: int|
            0 <= i < intervals.len() ==> 0 <= (
            #[trigger] intervals[i]).contributing_credits.micros <= most,
    ensures
        0 <= credits_of_first(intervals, n) <= most * n,
    decreases n,
{
    if n > 0 {
        lemma_credits_are_within(intervals, most, n - 1);
        assert(0 <= intervals[n - 1].contributing_credits.micros <= most);
        assert(most * n == most * (n - 1) + most) by (nonlinear_arith);
    } else {
        assert(most * 0 == 0) by (nonlinear_arith);
    }
}

/// The credits of some intervals fit wherever none is negative and the greatest, as often
/// as there are intervals, does.
pub proof fn law_few_credits_fit(intervals: Seq<CandidateInterval>, most: int)
    requires
        0 <= most,
        most * intervals.len() <= i64::MAX,
        forall|i: int|
            0 <= i < intervals.len() ==> 0 <= (
            #[trigger] intervals[i]).contributing_credits.micros <= most,
    ensures
        totals_fit(intervals),
{
    assert forall|n: int| 0 <= n <= intervals.len() implies i64::MIN
        <= #[trigger] credits_of_first(intervals, n) <= i64::MAX by {
        lemma_credits_are_within(intervals, most, n);
        assert(most * n <= most * intervals.len()) by (nonlinear_arith)
            requires
                0 <= most,
                0 <= n <= intervals.len(),
        ;
    }
}

} // verus!
