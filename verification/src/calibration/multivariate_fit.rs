//! The joint path of a controlled fit: from recorded readings and usage to settled
//! blocks, to a candidate with a coefficient for each token class, and to a promoted
//! result.
//!
//! Each interval between two usable readings that carries usage opens a block. The
//! quiet readings after it, while the meter catches up, belong to the block; it closes
//! at the last reading before the next usage, so that its movement is the settled
//! movement of its own tokens.

use crate::attribution::SessionMarkers;
use crate::calibration::account_usage::{
    own_rows, retain_account_usage, session_order, unattributed,
};
use crate::calibration::contamination::ContaminationThresholds;
use crate::calibration::fitter::{
    advancing, partition, partition_usable_observations, FitObservation, FitRejection,
};
use crate::calibration::multivariate::{
    distinct, joined_kinds, kind_names, select_design, with_signal, without_signal,
    MultivariateDesign, TokenObservation,
};
use crate::calibration::usage::{
    aggregate_event_tokens, all_known, countable, folded, is_countable, known_rows,
    law_the_first_unknown_class_is_named, law_unknown_classes_are_named, unknown_class_error,
    EventTokens,
};
use crate::domain::{Credits, KnownTokenVector, TokenKind, UtcTimestamp, FULL_WINDOW_PPM};
use crate::error::{Error, ErrorView};
use crate::ids::{
    CandidateId, EvidenceId, ExperimentId, PlanTier, ProviderKey, WindowSemanticKey,
};
use crate::records::{
    excluded_views, ConditionNumber, EvidenceDigest, ExcludedSample, StoredFitObservation,
    StoredUsageEvent, ValidityInterval,
};
use crate::sets::{joined, lemma_ordered_set, ordered_set, TextSet};
use crate::text::{hex16, hexadecimal};
use vstd::prelude::*;
use vstd::string::*;

verus! {

/// Which fitter runs for an experiment.
#[derive(Debug, Clone, Copy, PartialEq, Eq, Structural)]
pub enum FitPath {
    Univariate,
    Multivariate,
}

/// Whether a premise names at least two different classes.
pub open spec fn names_two_kinds(kinds: Option<&[TokenKind]>) -> bool {
    kinds is Some && exists|i: int, j: int|
        0 <= i < kinds->0@.len() && 0 <= j < kinds->0@.len() && #[trigger] kinds->0@[i]
            != #[trigger] kinds->0@[j]
}

/// Decides the path by the premise alone: two or more different classes are fitted
/// jointly; one class, or no premise, is fitted alone.
pub fn fit_path_for_premise(expected_kinds: Option<&[TokenKind]>) -> (path: FitPath)
    ensures
        path == if names_two_kinds(expected_kinds) {
            FitPath::Multivariate
        } else {
            FitPath::Univariate
        },
{
    match expected_kinds {
        None => FitPath::Univariate,
        Some(kinds) => {
            let mut i: usize = 0;
            while i < kinds.len()
                invariant
                    i <= kinds@.len(),
                    expected_kinds == Some(kinds),
                    forall|k: int| 0 <= k < i ==> #[trigger] kinds@[k] == kinds@[0],
                decreases kinds@.len() - i,
            {
                if kinds[i] != kinds[0] {
                    assert(names_two_kinds(expected_kinds)) by {
                        let listed = expected_kinds->0@;
                        assert(listed[i as int] != listed[0]);
                    }
                    return FitPath::Multivariate;
                }
                i = i + 1;
            }
            FitPath::Univariate
        },
    }
}

/// The tokens of one event.
#[derive(Debug, Clone, Copy, PartialEq, Eq, Structural)]
pub struct DatedTokens {
    pub at: UtcTimestamp,
    pub tokens: KnownTokenVector,
}

/// How many tokens of a class the first `n` events took after one moment and up to
/// another.
pub open spec fn spent_between(
    events: Seq<DatedTokens>,
    after: UtcTimestamp,
    until: UtcTimestamp,
    kind: TokenKind,
    n: int,
) -> nat
    decreases n,
{
    if n <= 0 {
        0
    } else {
        let before = spent_between(events, after, until, kind, n - 1);
        if after.nanos < events[n - 1].at.nanos <= until.nanos {
            before + events[n - 1].tokens.count(kind) as nat
        } else {
            before
        }
    }
}

/// How many tokens of a class all events took in an interval.
pub open spec fn interval_tokens(
    events: Seq<DatedTokens>,
    after: UtcTimestamp,
    until: UtcTimestamp,
    kind: TokenKind,
) -> nat {
    spent_between(events, after, until, kind, events.len() as int)
}

/// Whether the tokens of an interval are countable.
pub open spec fn interval_countable(
    events: Seq<DatedTokens>,
    after: UtcTimestamp,
    until: UtcTimestamp,
) -> bool {
    forall|kind: TokenKind| #[trigger] interval_tokens(events, after, until, kind) <= u64::MAX
}

proof fn lemma_spent_grows(
    events: Seq<DatedTokens>,
    after: UtcTimestamp,
    until: UtcTimestamp,
    kind: TokenKind,
    m: int,
    n: int,
)
    requires
        0 <= m <= n <= events.len(),
    ensures
        spent_between(events, after, until, kind, m) <= spent_between(
            events,
            after,
            until,
            kind,
            n,
        ),
    decreases n - m,
{
    if m < n {
        lemma_spent_grows(events, after, until, kind, m, n - 1);
    }
}

fn kind_tokens(
    events: &Vec<DatedTokens>,
    after: UtcTimestamp,
    until: UtcTimestamp,
    kind: TokenKind,
) -> (total: Option<u64>)
    ensures
        match total {
            Some(t) => t == interval_tokens(events@, after, until, kind),
            None => interval_tokens(events@, after, until, kind) > u64::MAX,
        },
{
    let mut total: u64 = 0;
    let mut i: usize = 0;
    while i < events.len()
        invariant
            i <= events@.len(),
            total == spent_between(events@, after, until, kind, i as int),
        decreases events@.len() - i,
    {
        if events[i].at.unix_nanos() > after.unix_nanos() && events[i].at.unix_nanos()
            <= until.unix_nanos() {
            match total.checked_add(events[i].tokens.get(kind)) {
                Some(next) => {
                    total = next;
                },
                None => {
                    proof {
                        lemma_spent_grows(
                            events@,
                            after,
                            until,
                            kind,
                            i + 1,
                            events@.len() as int,
                        );
                    }
                    return None;
                },
            }
        }
        i = i + 1;
    }
    Some(total)
}

/// The tokens of an interval; nothing where they are not countable.
pub fn tokens_between(
    events: &Vec<DatedTokens>,
    after: UtcTimestamp,
    until: UtcTimestamp,
) -> (tokens: Option<KnownTokenVector>)
    ensures
        match tokens {
            Some(t) => forall|kind: TokenKind| #[trigger]
                t.count(kind) == interval_tokens(events@, after, until, kind),
            None => !interval_countable(events@, after, until),
        },
{
    let input: u64 = match kind_tokens(events, after, until, TokenKind::Input) {
        Some(total) => total,
        None => {
            return None;
        },
    };
    let output: u64 = match kind_tokens(events, after, until, TokenKind::Output) {
        Some(total) => total,
        None => {
            return None;
        },
    };
    let cache_read: u64 = match kind_tokens(events, after, until, TokenKind::CacheRead) {
        Some(total) => total,
        None => {
            return None;
        },
    };
    let cache_write: u64 = match kind_tokens(events, after, until, TokenKind::CacheWrite) {
        Some(total) => total,
        None => {
            return None;
        },
    };
    let tokens: KnownTokenVector = KnownTokenVector::new(input, output, cache_read, cache_write);
    assert forall|kind: TokenKind| #[trigger] tokens.count(kind) == interval_tokens(
        events@,
        after,
        until,
        kind,
    ) by {
        match kind {
            TokenKind::Input => {},
            TokenKind::Output => {},
            TokenKind::CacheRead => {},
            TokenKind::CacheWrite => {},
        }
    }
    Some(tokens)
}

/// Whether some class has tokens.
pub open spec fn any_tokens(tokens: KnownTokenVector) -> bool {
    exists|kind: TokenKind| #[trigger] tokens.count(kind) > 0
}

/// Whether some class has tokens.
pub fn carries_usage(tokens: KnownTokenVector) -> (carries: bool)
    ensures
        carries == any_tokens(tokens),
{
    let carries: bool = tokens.input > 0 || tokens.output > 0 || tokens.cache_read > 0
        || tokens.cache_write > 0;
    proof {
        if carries {
            assert(tokens.count(TokenKind::Input) > 0 || tokens.count(TokenKind::Output) > 0
                || tokens.count(TokenKind::CacheRead) > 0 || tokens.count(TokenKind::CacheWrite)
                > 0);
        }
    }
    carries
}

/// One settled block: its tokens, and twice the movement of the meter over it.
#[derive(Debug, PartialEq, Eq)]
pub struct SettledBlock {
    pub evidence_id: EvidenceId,
    pub tokens: KnownTokenVector,
    pub twice_delta_ppm: i128,
}

/// Whether some class is spent between a reading and the one before.
pub open spec fn busy(usable: Seq<FitObservation>, events: Seq<DatedTokens>, k: int) -> bool {
    exists|kind: TokenKind| #[trigger]
        interval_tokens(events, usable[k - 1].at, usable[k].at, kind) > 0
}

/// The readings below `n` before which something was spent.
pub open spec fn busy_readings(
    usable: Seq<FitObservation>,
    events: Seq<DatedTokens>,
    n: int,
) -> Seq<int>
    decreases n,
{
    if n <= 1 {
        Seq::empty()
    } else {
        let before = busy_readings(usable, events, n - 1);
        if busy(usable, events, n - 1) {
            before.push(n - 1)
        } else {
            before
        }
    }
}

/// Whether the tokens between all neighbouring readings are countable.
pub open spec fn all_countable(usable: Seq<FitObservation>, events: Seq<DatedTokens>) -> bool {
    forall|k: int|
        1 <= k < usable.len() ==> interval_countable(
            events,
            usable[k - 1].at,
            (#[trigger] usable[k]).at,
        )
}

/// The reading at which a block closes: the last before the next block opens, or the
/// last of all.
pub open spec fn closing(usable: Seq<FitObservation>, opened: Seq<int>, j: int) -> int {
    if j + 1 < opened.len() {
        opened[j + 1] - 1
    } else {
        usable.len() - 1
    }
}

/// Whether a block is the one opened by the spend before a reading: it holds that
/// spend, and the movement from the reading before it to the reading that closes it.
pub open spec fn is_block(
    usable: Seq<FitObservation>,
    events: Seq<DatedTokens>,
    opened: Seq<int>,
    j: int,
    block: SettledBlock,
) -> bool {
    let open = opened[j];
    let close = closing(usable, opened, j);
    &&& block.evidence_id@ == usable[close].evidence_id@
    &&& forall|kind: TokenKind| #[trigger]
        block.tokens.count(kind) == interval_tokens(
            events,
            usable[open - 1].at,
            usable[open].at,
            kind,
        )
    &&& block.twice_delta_ppm == (usable[close].low() + usable[close].high()) - (usable[open
        - 1].low() + usable[open - 1].high())
}

/// Whether blocks are what readings and usage fold into.
pub open spec fn are_blocks(
    usable: Seq<FitObservation>,
    events: Seq<DatedTokens>,
    blocks: Seq<SettledBlock>,
) -> bool {
    let opened = busy_readings(usable, events, usable.len() as int);
    &&& blocks.len() == opened.len()
    &&& forall|j: int|
        0 <= j < blocks.len() ==> is_block(usable, events, opened, j, #[trigger] blocks[j])
}

/// Folds usable readings and usage into settled blocks; nothing where tokens between
/// two readings are not countable.
pub fn settled_blocks(usable: &Vec<FitObservation>, events: &Vec<DatedTokens>) -> (blocks: Option<
    Vec<SettledBlock>,
>)
    ensures
        match blocks {
            Some(list) => are_blocks(usable@, events@, list@),
            None => !all_countable(usable@, events@),
        },
{
    let total: usize = usable.len();
    let mut opened: Vec<usize> = Vec::new();
    let mut spent: Vec<KnownTokenVector> = Vec::new();
    let ghost mut found: Seq<int> = Seq::empty();
    let mut k: usize = 1;
    while k < total
        invariant
            1 <= k,
            k <= total || (total == 0 && k == 1),
            total == usable@.len(),
            found == busy_readings(usable@, events@, k as int),
            opened@.len() == found.len(),
            spent@.len() == found.len(),
            forall|j: int| 0 <= j < opened@.len() ==> #[trigger] opened@[j] == found[j],
            forall|j: int|
                0 <= j < opened@.len() ==> 1 <= #[trigger] opened@[j] < k && opened@[j] < total,
            forall|i: int, j: int|
                0 <= i < j < opened@.len() ==> #[trigger] opened@[i] < #[trigger] opened@[j],
            forall|j: int, kind: TokenKind|
                0 <= j < spent@.len() ==> #[trigger] spent@[j].count(kind) == interval_tokens(
                    events@,
                    usable@[opened@[j] - 1].at,
                    usable@[opened@[j] as int].at,
                    kind,
                ),
        decreases total - k,
    {
        match tokens_between(events, usable[k - 1].at, usable[k].at) {
            Some(tokens) => {
                if carries_usage(tokens) {
                    proof {
                        let kind = choose|kind: TokenKind| #[trigger] tokens.count(kind) > 0;
                        assert(interval_tokens(
                            events@,
                            usable@[k - 1].at,
                            usable@[k as int].at,
                            kind,
                        ) > 0);
                        assert(busy(usable@, events@, k as int));
                        found = found.push(k as int);
                    }
                    opened.push(k);
                    spent.push(tokens);
                } else {
                    assert(!busy(usable@, events@, k as int)) by {
                        if busy(usable@, events@, k as int) {
                            let kind = choose|kind: TokenKind| #[trigger]
                                interval_tokens(
                                    events@,
                                    usable@[k - 1].at,
                                    usable@[k as int].at,
                                    kind,
                                ) > 0;
                            assert(tokens.count(kind) > 0);
                        }
                    }
                }
            },
            None => {
                assert(!interval_countable(
                    events@,
                    usable@[k - 1].at,
                    usable@[k as int].at,
                ));
                return None;
            },
        }
        k = k + 1;
    }
    proof {
        assert(found == busy_readings(usable@, events@, usable@.len() as int));
    }
    let mut blocks: Vec<SettledBlock> = Vec::new();
    let count: usize = opened.len();
    let mut j: usize = 0;
    while j < count
        invariant
            j <= count,
            count == opened@.len(),
            total == usable@.len(),
            found == busy_readings(usable@, events@, usable@.len() as int),
            opened@.len() == found.len(),
            spent@.len() == found.len(),
            forall|i: int| 0 <= i < opened@.len() ==> #[trigger] opened@[i] == found[i],
            forall|i: int| 0 <= i < opened@.len() ==> 1 <= #[trigger] opened@[i] < total,
            forall|i: int, kind: TokenKind|
                0 <= i < spent@.len() ==> #[trigger] spent@[i].count(kind) == interval_tokens(
                    events@,
                    usable@[opened@[i] - 1].at,
                    usable@[opened@[i] as int].at,
                    kind,
                ),
            blocks@.len() == j,
            forall|i: int|
                0 <= i < blocks@.len() ==> is_block(
                    usable@,
                    events@,
                    found,
                    i,
                    #[trigger] blocks@[i],
                ),
        decreases count - j,
    {
        let open: usize = opened[j];
        let close: usize = if j < count - 1 {
            opened[j + 1] - 1
        } else {
            total - 1
        };
        assert(close == closing(usable@, found, j as int));
        let block: SettledBlock = SettledBlock {
            evidence_id: usable[close].evidence_id.clone(),
            tokens: spent[j],
            twice_delta_ppm: usable[close].twice_midpoint() - usable[open - 1].twice_midpoint(),
        };
        assert(is_block(usable@, events@, found, j as int, block));
        blocks.push(block);
        j = j + 1;
    }
    Some(blocks)
}

/// Where nothing was spent between readings there is no block.
pub proof fn law_no_spend_no_block(usable: Seq<FitObservation>, events: Seq<DatedTokens>)
    requires
        forall|k: int| 1 <= k < usable.len() ==> !#[trigger] busy(usable, events, k),
    ensures
        busy_readings(usable, events, usable.len() as int).len() == 0,
{
    lemma_quiet(usable, events, usable.len() as int);
}

/// The tokens of a class in the first `n` blocks together.
pub open spec fn spent_in(blocks: Seq<SettledBlock>, kind: TokenKind, n: int) -> nat
    decreases n,
{
    if n <= 0 {
        0
    } else {
        spent_in(blocks, kind, n - 1) + blocks[n - 1].tokens.count(kind) as nat
    }
}

/// Twice the movement over the first `n` blocks together.
pub open spec fn moved_over(blocks: Seq<SettledBlock>, n: int) -> int
    decreases n,
{
    if n <= 0 {
        0
    } else {
        moved_over(blocks, n - 1) + blocks[n - 1].twice_delta_ppm
    }
}

/// Blocks neither lose nor repeat a token: those of a class add up to all that was spent
/// of it from the first reading to the last.
pub proof fn law_blocks_hold_all_spend(
    usable: Seq<FitObservation>,
    events: Seq<DatedTokens>,
    blocks: Seq<SettledBlock>,
    kind: TokenKind,
)
    requires
        usable.len() > 0,
        advancing(usable),
        are_blocks(usable, events, blocks),
    ensures
        spent_in(blocks, kind, blocks.len() as int) == interval_tokens(
            events,
            usable.first().at,
            usable.last().at,
            kind,
        ),
{
    let n = usable.len() as int;
    let opened = busy_readings(usable, events, n);
    lemma_busy_readings_count(usable, events, kind, n);
    lemma_blocks_are_their_openings(usable, events, opened, blocks, kind, blocks.len() as int);
}

/// Blocks neither lose nor repeat movement: together they moved the meter from the
/// reading before the first spend to the last reading.
pub proof fn law_blocks_hold_all_movement(
    usable: Seq<FitObservation>,
    events: Seq<DatedTokens>,
    blocks: Seq<SettledBlock>,
)
    requires
        are_blocks(usable, events, blocks),
        blocks.len() > 0,
    ensures
        ({
            let before = usable[busy_readings(usable, events, usable.len() as int)[0] - 1];
            moved_over(blocks, blocks.len() as int) == (usable.last().low() + usable.last().high())
                - (before.low() + before.high())
        }),
{
    let opened = busy_readings(usable, events, usable.len() as int);
    lemma_movement_joins(usable, events, opened, blocks, blocks.len() as int);
}

/// The tokens spent before the first `m` of some readings, each since the reading before.
spec fn spent_before(
    usable: Seq<FitObservation>,
    events: Seq<DatedTokens>,
    opened: Seq<int>,
    kind: TokenKind,
    m: int,
) -> nat
    decreases m,
{
    if m <= 0 {
        0
    } else {
        spent_before(usable, events, opened, kind, m - 1) + interval_tokens(
            events,
            usable[opened[m - 1] - 1].at,
            usable[opened[m - 1]].at,
            kind,
        )
    }
}

proof fn lemma_spent_before_prefix(
    usable: Seq<FitObservation>,
    events: Seq<DatedTokens>,
    opened: Seq<int>,
    next: int,
    kind: TokenKind,
    m: int,
)
    requires
        0 <= m <= opened.len(),
    ensures
        spent_before(usable, events, opened.push(next), kind, m) == spent_before(
            usable,
            events,
            opened,
            kind,
            m,
        ),
    decreases m,
{
    if m > 0 {
        lemma_spent_before_prefix(usable, events, opened, next, kind, m - 1);
    }
}

proof fn lemma_intervals_add(
    events: Seq<DatedTokens>,
    from: UtcTimestamp,
    middle: UtcTimestamp,
    until: UtcTimestamp,
    kind: TokenKind,
    n: int,
)
    requires
        from.nanos <= middle.nanos <= until.nanos,
        n <= events.len(),
    ensures
        spent_between(events, from, middle, kind, n) + spent_between(events, middle, until, kind, n)
            == spent_between(events, from, until, kind, n),
    decreases n,
{
    if n > 0 {
        lemma_intervals_add(events, from, middle, until, kind, n - 1);
    }
}

proof fn lemma_empty_interval(events: Seq<DatedTokens>, at: UtcTimestamp, kind: TokenKind, n: int)
    requires
        n <= events.len(),
    ensures
        spent_between(events, at, at, kind, n) == 0,
    decreases n,
{
    if n > 0 {
        lemma_empty_interval(events, at, kind, n - 1);
    }
}

proof fn lemma_busy_readings_count(
    usable: Seq<FitObservation>,
    events: Seq<DatedTokens>,
    kind: TokenKind,
    n: int,
)
    requires
        1 <= n <= usable.len(),
        advancing(usable),
    ensures
        ({
            let opened = busy_readings(usable, events, n);
            spent_before(usable, events, opened, kind, opened.len() as int) == interval_tokens(
                events,
                usable[0].at,
                usable[n - 1].at,
                kind,
            )
        }),
    decreases n,
{
    if n == 1 {
        lemma_empty_interval(events, usable[0].at, kind, events.len() as int);
    } else {
        let before = busy_readings(usable, events, n - 1);
        lemma_busy_readings_count(usable, events, kind, n - 1);
        assert(usable[0].at.nanos <= usable[n - 2].at.nanos <= usable[n - 1].at.nanos);
        lemma_intervals_add(
            events,
            usable[0].at,
            usable[n - 2].at,
            usable[n - 1].at,
            kind,
            events.len() as int,
        );
        if busy(usable, events, n - 1) {
            lemma_spent_before_prefix(usable, events, before, n - 1, kind, before.len() as int);
            assert(before.push(n - 1)[before.len() as int] == n - 1);
        } else {
            assert(!(interval_tokens(events, usable[n - 2].at, usable[n - 1].at, kind) > 0));
        }
    }
}

proof fn lemma_blocks_are_their_openings(
    usable: Seq<FitObservation>,
    events: Seq<DatedTokens>,
    opened: Seq<int>,
    blocks: Seq<SettledBlock>,
    kind: TokenKind,
    m: int,
)
    requires
        0 <= m <= blocks.len(),
        opened == busy_readings(usable, events, usable.len() as int),
        are_blocks(usable, events, blocks),
    ensures
        spent_in(blocks, kind, m) == spent_before(usable, events, opened, kind, m),
    decreases m,
{
    if m > 0 {
        lemma_blocks_are_their_openings(usable, events, opened, blocks, kind, m - 1);
        assert(is_block(usable, events, opened, m - 1, blocks[m - 1]));
        assert(blocks[m - 1].tokens.count(kind) == interval_tokens(
            events,
            usable[opened[m - 1] - 1].at,
            usable[opened[m - 1]].at,
            kind,
        ));
    }
}

proof fn lemma_movement_joins(
    usable: Seq<FitObservation>,
    events: Seq<DatedTokens>,
    opened: Seq<int>,
    blocks: Seq<SettledBlock>,
    m: int,
)
    requires
        1 <= m <= blocks.len(),
        opened == busy_readings(usable, events, usable.len() as int),
        are_blocks(usable, events, blocks),
    ensures
        ({
            let before = usable[opened[0] - 1];
            let close = usable[closing(usable, opened, m - 1)];
            moved_over(blocks, m) == (close.low() + close.high()) - (before.low() + before.high())
        }),
    decreases m,
{
    assert(is_block(usable, events, opened, m - 1, blocks[m - 1]));
    if m > 1 {
        lemma_movement_joins(usable, events, opened, blocks, m - 1);
        assert(closing(usable, opened, m - 2) == opened[m - 1] - 1);
    } else {
        assert(moved_over(blocks, 0) == 0);
    }
}

proof fn lemma_quiet(usable: Seq<FitObservation>, events: Seq<DatedTokens>, n: int)
    requires
        n <= usable.len(),
        forall|k: int| 1 <= k < usable.len() ==> !#[trigger] busy(usable, events, k),
    ensures
        busy_readings(usable, events, n).len() == 0,
    decreases n,
{
    if n > 1 {
        lemma_quiet(usable, events, n - 1);
        assert(!busy(usable, events, n - 1));
    }
}

/// A recorded coefficient of a joint fit, in millionths of a part per million.
#[derive(Debug, Clone, Copy, PartialEq, Eq, Structural)]
pub struct StoredKindCoefficient {
    pub kind: TokenKind,
    pub estimate_micro_ppm_per_token: i64,
    pub std_error_micro_ppm_per_token: i64,
    pub interval_low_micro_ppm_per_token: i64,
    pub interval_high_micro_ppm_per_token: i64,
}

/// A controlled experiment as it was run.
#[derive(Debug, PartialEq, Eq)]
pub struct ControlledExperimentRun {
    pub id: ExperimentId,
    pub account: String,
    pub provider: ProviderKey,
    pub plan_tier: PlanTier,
    pub window_semantic_key: WindowSemanticKey,
    pub expected_token_kinds: Vec<TokenKind>,
    pub started_at: UtcTimestamp,
    pub ended_at: Option<UtcTimestamp>,
    pub contamination_thresholds: ContaminationThresholds,
}

/// Whether an observation is a reading without credits.
pub open spec fn unspent(reading: StoredFitObservation, out: FitObservation) -> bool {
    &&& out.evidence_id@ == reading.evidence_id@
    &&& out.at == reading.at
    &&& out.quota_used_ppm == reading.quota_used_ppm
    &&& out.reported_resolution_ppm == reading.reported_resolution_ppm
    &&& out.quantization == reading.quantization
    &&& out.cumulative_credits.micros == 0
}

/// Whether observations are readings without credits.
pub open spec fn all_unspent(readings: Seq<StoredFitObservation>, out: Seq<FitObservation>) -> bool {
    &&& out.len() == readings.len()
    &&& forall|i: int| 0 <= i < readings.len() ==> unspent(readings[i], #[trigger] out[i])
}

/// Takes readings as observations without credits.
pub fn without_spend(readings: &Vec<StoredFitObservation>) -> (out: Vec<FitObservation>)
    ensures
        all_unspent(readings@, out@),
{
    let mut out: Vec<FitObservation> = Vec::new();
    let mut i: usize = 0;
    while i < readings.len()
        invariant
            i <= readings@.len(),
            out@.len() == i,
            forall|k: int| 0 <= k < i ==> unspent(readings@[k], #[trigger] out@[k]),
        decreases readings@.len() - i,
    {
        out.push(
            FitObservation::new(
                readings[i].evidence_id.clone(),
                readings[i].at,
                readings[i].quota_used_ppm,
                readings[i].reported_resolution_ppm,
                readings[i].quantization,
                Credits::from_micros(0),
            ),
        );
        i = i + 1;
    }
    out
}

/// Whether dated tokens are the entries of some events, in their order.
pub open spec fn dated(entries: Seq<EventTokens>, out: Seq<DatedTokens>) -> bool {
    &&& out.len() == entries.len()
    &&& forall|i: int|
        0 <= i < entries.len() ==> (#[trigger] out[i]).at == entries[i].at && out[i].tokens
            == entries[i].tokens
}

/// Folds the rows of an account's usage into dated tokens.
fn dated_tokens(rows: &Vec<StoredUsageEvent>) -> (events: Result<Vec<DatedTokens>, Error>)
    requires
        countable(rows@),
    ensures
        match events {
            Ok(list) => {
                &&& all_known(rows@)
                &&& exists|entries: Seq<EventTokens>| #[trigger]
                    folded(rows@, entries) && dated(entries, list@)
            },
            Err(error) => !all_known(rows@) && error@ == unknown_class_error(rows@),
        },
{
    let entries: Vec<EventTokens> = match aggregate_event_tokens(rows) {
        Ok(entries) => entries,
        Err(error) => {
            return Err(error);
        },
    };
    let mut list: Vec<DatedTokens> = Vec::new();
    let mut i: usize = 0;
    while i < entries.len()
        invariant
            i <= entries@.len(),
            list@.len() == i,
            forall|k: int|
                0 <= k < i ==> (#[trigger] list@[k]).at == entries@[k].at && list@[k].tokens
                    == entries@[k].tokens,
        decreases entries@.len() - i,
    {
        list.push(DatedTokens { at: entries[i].at, tokens: entries[i].tokens });
        i = i + 1;
    }
    assert(folded(rows@, entries@) && dated(entries@, list@));
    Ok(list)
}

/// What a joint fit of a controlled run runs on.
#[derive(Debug, PartialEq, Eq)]
pub struct ControlledBlocks {
    pub blocks: Vec<SettledBlock>,
    /// The readings and sessions left out.
    pub excluded_samples: Vec<ExcludedSample>,
}

/// The refusal to fit a run that has not ended.
pub fn still_running_refusal(run: &str) -> (error: Error)
    ensures
        error@ == ErrorView::InsufficientEvidence(
            "controlled experiment '"@ + run@ + "' is still running; end it before fitting"@,
        ),
{
    let mut message: String = "controlled experiment '".to_owned();
    message.append(run);
    message.append("' is still running; end it before fitting");
    Error::InsufficientEvidence(message)
}

/// Whether blocks are what usable readings and an account's own usage fold into, all of
/// which is of known classes.
pub open spec fn blocks_over(
    account: Seq<char>,
    usable: Seq<FitObservation>,
    usage: Seq<StoredUsageEvent>,
    markers: Seq<SessionMarkers>,
    blocks: Seq<SettledBlock>,
) -> bool {
    let own = own_rows(usage, markers, account, usage.len() as int);
    all_known(own) && exists|entries: Seq<EventTokens>, events: Seq<DatedTokens>| #[trigger]
        folded(own, entries) && #[trigger] dated(entries, events) && are_blocks(
            usable,
            events,
            blocks,
        )
}

/// Whether a count of tokens between usable readings is too large to hold.
pub open spec fn uncountable(
    account: Seq<char>,
    usable: Seq<FitObservation>,
    usage: Seq<StoredUsageEvent>,
    markers: Seq<SessionMarkers>,
) -> bool {
    let own = own_rows(usage, markers, account, usage.len() as int);
    !countable(own) || (all_known(own) && exists|
        entries: Seq<EventTokens>,
        events: Seq<DatedTokens>,
    | #[trigger]
        folded(own, entries) && #[trigger] dated(entries, events) && !all_countable(
            usable,
            events,
        ))
}

/// Why an account's usage cannot be folded: a row of a class that is not known.
pub open spec fn unknown_usage(
    account: Seq<char>,
    usage: Seq<StoredUsageEvent>,
    markers: Seq<SessionMarkers>,
    error: ErrorView,
) -> bool {
    let own = own_rows(usage, markers, account, usage.len() as int);
    !all_known(own) && error == unknown_class_error(own)
}

/// Folds usable readings and the usage of one account into blocks, and names the
/// sessions whose usage no marker places; nothing where a count of tokens is too large
/// to hold.
pub fn account_blocks(
    account: &str,
    usable: &Vec<FitObservation>,
    usage: &Vec<StoredUsageEvent>,
    markers: &Vec<SessionMarkers>,
) -> (blocks: Option<Result<ControlledBlocks, Error>>)
    ensures
        match blocks {
            Some(Ok(found)) => {
                &&& blocks_over(account@, usable@, usage@, markers@, found.blocks@)
                &&& excluded_views(found.excluded_samples@) == unattributed(
                    usage@,
                    markers@,
                    session_order(usage@).len() as int,
                )
            },
            Some(Err(error)) => unknown_usage(account@, usage@, markers@, error@),
            None => uncountable(account@, usable@, usage@, markers@),
        },
{
    let (own, unplaced) = retain_account_usage(usage, markers, account);
    if !is_countable(&own) {
        return None;
    }
    let events: Vec<DatedTokens> = match dated_tokens(&own) {
        Ok(events) => events,
        Err(error) => {
            return Some(Err(error));
        },
    };
    let ghost entries = choose|entries: Seq<EventTokens>| #[trigger]
        folded(own@, entries) && dated(entries, events@);
    assert(folded(own@, entries) && dated(entries, events@));
    let blocks: Vec<SettledBlock> = match settled_blocks(usable, &events) {
        Some(blocks) => blocks,
        None => {
            return None;
        },
    };
    Some(Ok(ControlledBlocks { blocks, excluded_samples: unplaced }))
}

/// Folds the readings of a controlled run and the usage of its own account into blocks;
/// nothing where a count of tokens is too large to hold. The readings left out come
/// before the sessions left out.
pub fn controlled_blocks(
    run: &ControlledExperimentRun,
    readings: &Vec<StoredFitObservation>,
    usage: &Vec<StoredUsageEvent>,
    markers: &Vec<SessionMarkers>,
) -> (blocks: Option<Result<ControlledBlocks, Error>>)
    ensures
        exists|observations: Seq<FitObservation>|
            {
                let parts = partition(observations);
                &&& #[trigger] all_unspent(readings@, observations)
                &&& match blocks {
                    Some(Ok(found)) => {
                        &&& readings@.len() > 0
                        &&& blocks_over(
                            run.account@,
                            parts.usable,
                            usage@,
                            markers@,
                            found.blocks@,
                        )
                        &&& excluded_views(found.excluded_samples@) == parts.excluded
                            + unattributed(usage@, markers@, session_order(usage@).len() as int)
                    },
                    Some(Err(error)) => if readings@.len() == 0 {
                        error@ == ErrorView::InsufficientEvidence(
                            "no meter observations found for controlled experiment '"@ + run.id@
                                + "'"@,
                        )
                    } else {
                        unknown_usage(run.account@, usage@, markers@, error@)
                    },
                    None => readings@.len() > 0 && uncountable(
                        run.account@,
                        parts.usable,
                        usage@,
                        markers@,
                    ),
                }
            },
{
    let observations: Vec<FitObservation> = without_spend(readings);
    assert(all_unspent(readings@, observations@));
    if readings.len() == 0 {
        let mut message: String =
            "no meter observations found for controlled experiment '".to_owned();
        message.append(run.id.as_str());
        message.append("'");
        return Some(Err(Error::InsufficientEvidence(message)));
    }
    let (usable, mut excluded) = partition_usable_observations(&observations);
    match account_blocks(run.account.as_str(), &usable, usage, markers) {
        Some(Ok(mut found)) => {
            let ghost kept = excluded@;
            let ghost others = found.excluded_samples@;
            excluded.append(&mut found.excluded_samples);
            assert(excluded_views(excluded@) =~= excluded_views(kept) + excluded_views(others));
            Some(Ok(ControlledBlocks { blocks: found.blocks, excluded_samples: excluded }))
        },
        other => other,
    }
}

/// The usage of some blocks, as observations of a joint fit.
pub open spec fn block_observations(
    blocks: Seq<SettledBlock>,
    observations: Seq<TokenObservation>,
) -> bool {
    &&& observations.len() == blocks.len()
    &&& forall|i: int|
        0 <= i < blocks.len() ==> (#[trigger] observations[i]).evidence_id@
            == blocks[i].evidence_id@ && observations[i].tokens == blocks[i].tokens
}

/// Selects what the joint fit of a controlled run runs on: two blocks for each class of
/// the premise at least.
pub fn controlled_design(run: &ControlledExperimentRun, blocks: &Vec<SettledBlock>) -> (design:
    Result<MultivariateDesign, Error>)
    requires
        2 * run.expected_token_kinds@.len() <= usize::MAX,
    ensures
        exists|observations: Seq<TokenObservation>|
            {
                let kinds = distinct(run.expected_token_kinds@);
                let used = with_signal(observations, kinds, observations.len() as int);
                &&& #[trigger] block_observations(blocks@, observations)
                &&& match design {
                    Ok(d) => {
                        &&& run.expected_token_kinds@.len() > 0
                        &&& used.len() >= 2 * run.expected_token_kinds@.len()
                        &&& d.kinds@ == kinds
                        &&& d.usable@ == used
                        &&& excluded_views(d.excluded_samples@) == without_signal(
                            observations,
                            kinds,
                            observations.len() as int,
                        )
                    },
                    Err(error) => if run.expected_token_kinds@.len() == 0 {
                        error@ == ErrorView::Internal(
                            "multivariate fit configuration: multivariate fit minimum observations must be at least 1"@,
                        )
                    } else {
                        used.len() < 2 * run.expected_token_kinds@.len() && error@
                            == ErrorView::InsufficientEvidence(
                            "fit rejected: "@ + (FitRejection::InsufficientObservations {
                                found: used.len() as usize,
                                required: (2 * run.expected_token_kinds@.len()) as usize,
                            }).text(),
                        )
                    },
                }
            },
{
    let mut observations: Vec<TokenObservation> = Vec::new();
    let mut i: usize = 0;
    while i < blocks.len()
        invariant
            i <= blocks@.len(),
            observations@.len() == i,
            forall|k: int|
                0 <= k < i ==> (#[trigger] observations@[k]).evidence_id@
                    == blocks@[k].evidence_id@ && observations@[k].tokens == blocks@[k].tokens,
        decreases blocks@.len() - i,
    {
        observations.push(
            TokenObservation {
                evidence_id: blocks[i].evidence_id.clone(),
                tokens: blocks[i].tokens,
            },
        );
        i = i + 1;
    }
    assert(block_observations(blocks@, observations@));
    let count: usize = run.expected_token_kinds.len();
    if count == 0 {
        return Err(
            Error::Internal(
                "multivariate fit configuration: multivariate fit minimum observations must be at least 1".to_owned(),
            ),
        );
    }
    proof {
        lemma_distinct_is_no_longer(run.expected_token_kinds@);
    }
    match select_design(&observations, run.expected_token_kinds.as_slice(), 2 * count) {
        Ok(design) => Ok(design),
        Err(rejection) => Err(rejection.into_error()),
    }
}

proof fn lemma_distinct_is_no_longer(kinds: Seq<TokenKind>)
    ensures
        distinct(kinds).len() <= kinds.len(),
        kinds.len() > 0 ==> distinct(kinds).len() > 0,
    decreases kinds.len(),
{
    if kinds.len() > 0 {
        lemma_distinct_is_no_longer(kinds.drop_last());
    }
}

/// The design of a controlled run, in text.
pub fn phase_design(run: &ControlledExperimentRun) -> (text: String)
    ensures
        text@ == "controlled-run="@ + run.id@ + ";kinds="@ + joined(
            kind_names(run.expected_token_kinds@),
            ","@,
        ) + ";frame=settled-blocks"@,
{
    let mut text: String = "controlled-run=".to_owned();
    text.append(run.id.as_str());
    text.append(";kinds=");
    text.append(joined_kinds(run.expected_token_kinds.as_slice()).as_str());
    text.append(";frame=settled-blocks");
    text
}

/// A fitted joint candidate.
#[derive(Debug, PartialEq, Eq)]
pub struct MultivariateCandidate {
    pub id: CandidateId,
    pub experiment: ExperimentId,
    pub provider: ProviderKey,
    pub plan_tier: PlanTier,
    pub window_semantic_key: WindowSemanticKey,
    pub coefficients: Vec<StoredKindCoefficient>,
    pub condition_number: ConditionNumber,
    pub condition_number_threshold: ConditionNumber,
    pub fit_residual_ppm: i64,
    pub sample_count: u32,
    pub inputs: EvidenceDigest,
    pub statistical_method: String,
    pub statistical_parameters: String,
    pub phase_design: String,
    pub validity: ValidityInterval,
    pub knowledge_time: UtcTimestamp,
}

/// What a joint regression estimated, in whole units.
#[derive(Debug, PartialEq, Eq)]
pub struct JointEstimate {
    pub coefficients: Vec<StoredKindCoefficient>,
    pub condition_number: ConditionNumber,
    pub condition_number_threshold: ConditionNumber,
    /// The mean absolute residual, rounded.
    pub residual_ppm: i64,
    pub usable_observations: u32,
    pub statistical_method: String,
    pub statistical_parameters: String,
}

/// The evidence of some readings, as a set.
pub open spec fn reading_evidence(readings: Seq<StoredFitObservation>) -> Seq<Seq<char>> {
    ordered_set(readings.map_values(|r: StoredFitObservation| r.evidence_id@))
}

/// The evidence of some readings, as a set.
fn reading_set(readings: &Vec<StoredFitObservation>) -> (set: TextSet)
    ensures
        set@ == reading_evidence(readings@),
{
    let ghost ids = readings@.map_values(|r: StoredFitObservation| r.evidence_id@);
    let mut set: TextSet = TextSet::new();
    let mut i: usize = 0;
    assert(ids.take(0) =~= Seq::empty());
    while i < readings.len()
        invariant
            i <= readings@.len(),
            ids == readings@.map_values(|r: StoredFitObservation| r.evidence_id@),
            set@ == ordered_set(ids.take(i as int)),
        decreases readings@.len() - i,
    {
        assert(ids.take(i + 1).drop_last() =~= ids.take(i as int));
        assert(ids.take(i + 1).last() == readings@[i as int].evidence_id@);
        set.insert(readings[i].evidence_id.as_str());
        i = i + 1;
    }
    assert(ids.take(readings@.len() as int) =~= ids);
    set
}

/// A number of parts per million brought into a whole window.
pub open spec fn within_window(ppm: int) -> int {
    if ppm < 0 {
        0
    } else if ppm > FULL_WINDOW_PPM {
        FULL_WINDOW_PPM as int
    } else {
        ppm
    }
}

/// Turns the estimate of a joint regression into a candidate of a controlled run. A run
/// needs to have lasted some time.
pub fn joint_candidate(
    run: &ControlledExperimentRun,
    readings: &Vec<StoredFitObservation>,
    ended_at: UtcTimestamp,
    estimate: JointEstimate,
    now: UtcTimestamp,
) -> (candidate: Result<MultivariateCandidate, Error>)
    ensures
        match candidate {
            Ok(c) => {
                &&& run.started_at.nanos < ended_at.nanos
                &&& c.inputs.describes(reading_evidence(readings@))
                &&& c.id@ == "mvcand-"@ + run.id@ + "-"@ + hexadecimal(c.inputs.digest as nat, 16)
                &&& c.experiment@ == run.id@
                &&& c.provider@ == run.provider@
                &&& c.plan_tier@ == run.plan_tier@
                &&& c.window_semantic_key@ == run.window_semantic_key@
                &&& c.coefficients@ == estimate.coefficients@
                &&& c.condition_number == estimate.condition_number
                &&& c.condition_number_threshold == estimate.condition_number_threshold
                &&& c.fit_residual_ppm == within_window(estimate.residual_ppm as int)
                &&& c.sample_count == estimate.usable_observations
                &&& c.statistical_method@ == estimate.statistical_method@
                &&& c.statistical_parameters@ == estimate.statistical_parameters@
                &&& c.phase_design@ == "controlled-run="@ + run.id@ + ";kinds="@ + joined(
                    kind_names(run.expected_token_kinds@),
                    ","@,
                ) + ";frame=settled-blocks"@
                &&& c.validity.start() == run.started_at
                &&& c.validity.end() == ended_at
                &&& c.knowledge_time == now
            },
            Err(error) => run.started_at.nanos >= ended_at.nanos && error@ == ErrorView::Store(
                "invalid interval: validity must end after it starts"@,
            ),
        },
{
    let validity: ValidityInterval = match ValidityInterval::new(run.started_at, ended_at) {
        Some(validity) => validity,
        None => {
            return Err(
                Error::Store("invalid interval: validity must end after it starts".to_owned()),
            );
        },
    };
    let set: TextSet = reading_set(readings);
    let inputs: EvidenceDigest = EvidenceDigest::from_inputs(&set);
    let mut id: String = "mvcand-".to_owned();
    id.append(run.id.as_str());
    id.append("-");
    id.append(hex16(inputs.digest()).as_str());
    let residual: i64 = if estimate.residual_ppm < 0 {
        0
    } else if estimate.residual_ppm > 1_000_000 {
        1_000_000
    } else {
        estimate.residual_ppm
    };
    Ok(
        MultivariateCandidate {
            id: CandidateId::new(id.as_str()),
            experiment: run.id.clone(),
            provider: run.provider.clone(),
            plan_tier: run.plan_tier.clone(),
            window_semantic_key: run.window_semantic_key.clone(),
            coefficients: estimate.coefficients,
            condition_number: estimate.condition_number,
            condition_number_threshold: estimate.condition_number_threshold,
            fit_residual_ppm: residual,
            sample_count: estimate.usable_observations,
            inputs,
            statistical_method: estimate.statistical_method,
            statistical_parameters: estimate.statistical_parameters,
            phase_design: phase_design(run),
            validity,
            knowledge_time: now,
        },
    )
}

/// Spend adds up event by event: each counts its tokens of a class from after one moment
/// until another, the latter included, and not outside.
pub proof fn law_each_event_counts_in_its_interval(
    events: Seq<DatedTokens>,
    last: DatedTokens,
    after: UtcTimestamp,
    until: UtcTimestamp,
    kind: TokenKind,
)
    ensures
        interval_tokens(Seq::empty(), after, until, kind) == 0,
        interval_tokens(events.push(last), after, until, kind) == interval_tokens(
            events,
            after,
            until,
            kind,
        ) + if last.at.nanos > after.nanos && last.at.nanos <= until.nanos {
            (match kind {
                TokenKind::Input => last.tokens.input,
                TokenKind::Output => last.tokens.output,
                TokenKind::CacheRead => last.tokens.cache_read,
                TokenKind::CacheWrite => last.tokens.cache_write,
            }) as int
        } else {
            0
        },
{
    lemma_spent_between_prefix(
        events,
        events.push(last),
        after,
        until,
        kind,
        events.len() as int,
    );
}

proof fn lemma_spent_between_prefix(
    shorter: Seq<DatedTokens>,
    longer: Seq<DatedTokens>,
    after: UtcTimestamp,
    until: UtcTimestamp,
    kind: TokenKind,
    n: int,
)
    requires
        n <= shorter.len(),
        n <= longer.len(),
        forall|i: int| 0 <= i < n ==> shorter[i] == #[trigger] longer[i],
    ensures
        spent_between(shorter, after, until, kind, n) == spent_between(
            longer,
            after,
            until,
            kind,
            n,
        ),
    decreases n,
{
    if n > 0 {
        lemma_spent_between_prefix(shorter, longer, after, until, kind, n - 1);
        assert(shorter[n - 1] == longer[n - 1]);
    }
}

proof fn lemma_busy_readings(usable: Seq<FitObservation>, events: Seq<DatedTokens>, n: int)
    ensures
        forall|i: int|
            0 <= i < busy_readings(usable, events, n).len() ==> 1 <= #[trigger] busy_readings(
                usable,
                events,
                n,
            )[i] < n && busy(usable, events, busy_readings(usable, events, n)[i]),
        forall|i: int, j: int|
            #![trigger busy_readings(usable, events, n)[i], busy_readings(usable, events, n)[j]]
            0 <= i < j < busy_readings(usable, events, n).len() ==> busy_readings(
                usable,
                events,
                n,
            )[i] < busy_readings(usable, events, n)[j],
        forall|k: int|
            1 <= k < n && #[trigger] busy(usable, events, k) ==> busy_readings(
                usable,
                events,
                n,
            ).contains(k),
    decreases n,
{
    if n > 1 {
        lemma_busy_readings(usable, events, n - 1);
        let before = busy_readings(usable, events, n - 1);
        let all = busy_readings(usable, events, n);
        assert forall|k: int| 1 <= k < n && #[trigger] busy(usable, events, k) implies all.contains(
            k,
        ) by {
            if k < n - 1 {
                assert(before.contains(k));
                let i = choose|i: int| 0 <= i < before.len() && before[i] == k;
                assert(all[i] == k);
            } else {
                assert(all[before.len() as int] == k);
            }
        }
    }
}

/// A block opens at a reading up to which tokens were spent since the one before, and
/// closes at the last reading before the next such one, or at the last of all. It holds
/// the tokens of that interval and twice the movement of the middle of the readings, from
/// the one before it opens to the one it closes at. No other reading opens a block.
pub proof fn law_a_block_runs_from_spend_to_spend(
    usable: Seq<FitObservation>,
    events: Seq<DatedTokens>,
    blocks: Seq<SettledBlock>,
    j: int,
) -> (ends: (int, int))
    requires
        are_blocks(usable, events, blocks),
        0 <= j < blocks.len(),
    ensures
        1 <= ends.0 <= ends.1 < usable.len(),
        busy(usable, events, ends.0),
        forall|k: int| ends.0 < k <= ends.1 ==> !#[trigger] busy(usable, events, k),
        ends.1 + 1 < usable.len() ==> busy(usable, events, ends.1 + 1),
        blocks[j].evidence_id@ == usable[ends.1].evidence_id@,
        blocks[j].tokens.input == interval_tokens(
            events,
            usable[ends.0 - 1].at,
            usable[ends.0].at,
            TokenKind::Input,
        ),
        blocks[j].tokens.output == interval_tokens(
            events,
            usable[ends.0 - 1].at,
            usable[ends.0].at,
            TokenKind::Output,
        ),
        blocks[j].tokens.cache_read == interval_tokens(
            events,
            usable[ends.0 - 1].at,
            usable[ends.0].at,
            TokenKind::CacheRead,
        ),
        blocks[j].tokens.cache_write == interval_tokens(
            events,
            usable[ends.0 - 1].at,
            usable[ends.0].at,
            TokenKind::CacheWrite,
        ),
        blocks[j].twice_delta_ppm == usable[ends.1].low() + usable[ends.1].high() - usable[ends.0
            - 1].low() - usable[ends.0 - 1].high(),
{
    let n = usable.len() as int;
    let opened = busy_readings(usable, events, n);
    lemma_busy_readings(usable, events, n);
    assert(is_block(usable, events, opened, j, blocks[j]));
    let open = opened[j];
    let close = closing(usable, opened, j);
    let block = blocks[j];
    let (from, to) = (usable[open - 1].at, usable[open].at);
    assert(block.tokens.count(TokenKind::Input) == interval_tokens(
        events,
        from,
        to,
        TokenKind::Input,
    ));
    assert(block.tokens.count(TokenKind::Output) == interval_tokens(
        events,
        from,
        to,
        TokenKind::Output,
    ));
    assert(block.tokens.count(TokenKind::CacheRead) == interval_tokens(
        events,
        from,
        to,
        TokenKind::CacheRead,
    ));
    assert(block.tokens.count(TokenKind::CacheWrite) == interval_tokens(
        events,
        from,
        to,
        TokenKind::CacheWrite,
    ));
    if j + 1 < opened.len() {
        assert(opened[j] < opened[j + 1]);
    }
    assert forall|k: int| open < k <= close implies !#[trigger] busy(usable, events, k) by {
        if busy(usable, events, k) {
            assert(opened.contains(k));
            let i = choose|i: int| 0 <= i < opened.len() && opened[i] == k;
            if i < j {
                assert(opened[i] < opened[j]);
            } else if i > j + 1 {
                assert(opened[j + 1] < opened[i]);
            }
        }
    }
    if close + 1 < n {
        assert(opened[j + 1] == close + 1);
    }
    (open, close)
}

/// Tokens are spent up to a reading exactly where an event with tokens of any class came
/// after the reading before and not after it; and every such reading opens a block.
pub proof fn law_spend_opens_a_block(
    usable: Seq<FitObservation>,
    events: Seq<DatedTokens>,
    k: int,
)
    requires
        1 <= k < usable.len(),
    ensures
        busy(usable, events, k) <==> exists|e: int|
            0 <= e < events.len() && usable[k - 1].at.nanos < (#[trigger] events[e]).at.nanos
                <= usable[k].at.nanos && (events[e].tokens.input > 0 || events[e].tokens.output > 0
                || events[e].tokens.cache_read > 0 || events[e].tokens.cache_write > 0),
        busy_readings(usable, events, usable.len() as int).contains(k) <==> busy(
            usable,
            events,
            k,
        ),
{
    let (after, until) = (usable[k - 1].at, usable[k].at);
    let n = events.len() as int;
    lemma_busy_readings(usable, events, usable.len() as int);
    if busy(usable, events, k) {
        let kind = choose|kind: TokenKind| #[trigger]
            interval_tokens(events, after, until, kind) > 0;
        let e = lemma_spend_has_an_event(events, after, until, kind, n);
        assert(events[e].tokens.count(kind) > 0);
    }
    if exists|e: int|
        0 <= e < events.len() && after.nanos < (#[trigger] events[e]).at.nanos <= until.nanos && (
        events[e].tokens.input > 0 || events[e].tokens.output > 0 || events[e].tokens.cache_read
            > 0 || events[e].tokens.cache_write > 0) {
        let e = choose|e: int|
            0 <= e < events.len() && after.nanos < (#[trigger] events[e]).at.nanos <= until.nanos
                && (events[e].tokens.input > 0 || events[e].tokens.output > 0
                || events[e].tokens.cache_read > 0 || events[e].tokens.cache_write > 0);
        let kind = if events[e].tokens.input > 0 {
            TokenKind::Input
        } else if events[e].tokens.output > 0 {
            TokenKind::Output
        } else if events[e].tokens.cache_read > 0 {
            TokenKind::CacheRead
        } else {
            TokenKind::CacheWrite
        };
        lemma_an_event_is_spend(events, after, until, kind, n, e);
        assert(interval_tokens(events, after, until, kind) > 0);
    }
    let opened = busy_readings(usable, events, usable.len() as int);
    if opened.contains(k) {
        let i = choose|i: int| 0 <= i < opened.len() && opened[i] == k;
        assert(busy(usable, events, opened[i]));
    }
}

proof fn lemma_spend_has_an_event(
    events: Seq<DatedTokens>,
    after: UtcTimestamp,
    until: UtcTimestamp,
    kind: TokenKind,
    n: int,
) -> (e: int)
    requires
        0 <= n <= events.len(),
        spent_between(events, after, until, kind, n) > 0,
    ensures
        0 <= e < n,
        after.nanos < events[e].at.nanos <= until.nanos,
        events[e].tokens.count(kind) > 0,
    decreases n,
{
    if spent_between(events, after, until, kind, n - 1) > 0 {
        lemma_spend_has_an_event(events, after, until, kind, n - 1)
    } else {
        n - 1
    }
}

proof fn lemma_an_event_is_spend(
    events: Seq<DatedTokens>,
    after: UtcTimestamp,
    until: UtcTimestamp,
    kind: TokenKind,
    n: int,
    e: int,
)
    requires
        0 <= e < n <= events.len(),
        after.nanos < events[e].at.nanos <= until.nanos,
        events[e].tokens.count(kind) > 0,
    ensures
        spent_between(events, after, until, kind, n) > 0,
    decreases n,
{
    if e < n - 1 {
        lemma_an_event_is_spend(events, after, until, kind, n - 1, e);
    }
}

/// Readings enter a joint fit as they were recorded, without credits, and events as they
/// were folded.
pub proof fn law_joint_fits_read_what_was_recorded(
    readings: Seq<StoredFitObservation>,
    out: Seq<FitObservation>,
    entries: Seq<EventTokens>,
    events: Seq<DatedTokens>,
    i: int,
)
    requires
        all_unspent(readings, out),
        dated(entries, events),
    ensures
        out.len() == readings.len(),
        events.len() == entries.len(),
        0 <= i < readings.len() ==> out[i].evidence_id@ == readings[i].evidence_id@
            && out[i].at.nanos == readings[i].at.nanos && out[i].quota_used_ppm
            == readings[i].quota_used_ppm && out[i].reported_resolution_ppm
            == readings[i].reported_resolution_ppm && out[i].quantization
            == readings[i].quantization && out[i].cumulative_credits.micros == 0,
        0 <= i < entries.len() ==> events[i].at.nanos == entries[i].at.nanos && events[i].tokens
            == entries[i].tokens,
{
    if 0 <= i < readings.len() {
        assert(unspent(readings[i], out[i]));
    }
    if 0 <= i < entries.len() {
        assert(events[i].at == entries[i].at);
    }
}

/// A residual is kept as it is between nothing and a whole window, and brought to the
/// nearer of the two outside.
pub proof fn law_residuals_stay_within_a_window(ppm: int)
    ensures
        0 <= within_window(ppm) <= 1_000_000,
        0 <= ppm <= 1_000_000 ==> within_window(ppm) == ppm,
        ppm < 0 ==> within_window(ppm) == 0,
        ppm > 1_000_000 ==> within_window(ppm) == 1_000_000,
{
}

/// A joint fit is made exactly where two classes that differ are expected.
pub proof fn law_two_classes_make_a_joint_fit(kinds: &[TokenKind], i: int, j: int)
    ensures
        0 <= i < kinds@.len() && 0 <= j < kinds@.len() && kinds@[i] != kinds@[j]
            ==> names_two_kinds(Some(kinds)),
        kinds@.len() < 2 ==> !names_two_kinds(Some(kinds)),
        !names_two_kinds(None),
        names_two_kinds(Some(kinds)) && 0 <= i < kinds@.len() ==> exists|other: int|
            0 <= other < kinds@.len() && #[trigger] kinds@[other] != kinds@[i],
{
    let named = Some(kinds);
    if 0 <= i < kinds@.len() && 0 <= j < kinds@.len() && kinds@[i] != kinds@[j] {
        assert(named->0@[i] != named->0@[j]);
    }
    if names_two_kinds(Some(kinds)) && 0 <= i < kinds@.len() {
        let (a, b) = choose|a: int, b: int|
            0 <= a < kinds@.len() && 0 <= b < kinds@.len() && #[trigger] kinds@[a]
                != #[trigger] kinds@[b];
        if kinds@[a] == kinds@[i] {
            assert(kinds@[b] != kinds@[i]);
        } else {
            assert(kinds@[a] != kinds@[i]);
        }
    }
}

/// The evidence of a joint fit is that of all its readings, and no other.
pub proof fn law_every_reading_is_evidence(readings: Seq<StoredFitObservation>, id: Seq<char>)
    ensures
        reading_evidence(readings).contains(id) <==> exists|i: int|
            0 <= i < readings.len() && (#[trigger] readings[i]).evidence_id@ == id,
{
    let ids = readings.map_values(|r: StoredFitObservation| r.evidence_id@);
    lemma_ordered_set(ids);
    if ids.contains(id) {
        let i = choose|i: int| 0 <= i < ids.len() && ids[i] == id;
        assert(readings[i].evidence_id@ == id);
    }
    if exists|i: int| 0 <= i < readings.len() && (#[trigger] readings[i]).evidence_id@ == id {
        let i = choose|i: int|
            0 <= i < readings.len() && (#[trigger] readings[i]).evidence_id@ == id;
        assert(ids[i] == id);
    }
}

/// Usage is carried exactly where there are tokens of some class.
pub proof fn law_any_class_is_usage(tokens: KnownTokenVector)
    ensures
        any_tokens(tokens) <==> tokens.input > 0 || tokens.output > 0 || tokens.cache_read > 0
            || tokens.cache_write > 0,
{
    if any_tokens(tokens) {
        let kind = choose|kind: TokenKind| #[trigger] tokens.count(kind) > 0;
        assert(tokens.count(kind) > 0);
    }
    if tokens.input > 0 {
        assert(tokens.count(TokenKind::Input) > 0);
    }
    if tokens.output > 0 {
        assert(tokens.count(TokenKind::Output) > 0);
    }
    if tokens.cache_read > 0 {
        assert(tokens.count(TokenKind::CacheRead) > 0);
    }
    if tokens.cache_write > 0 {
        assert(tokens.count(TokenKind::CacheWrite) > 0);
    }
}

proof fn lemma_tokens_are_bounded(
    events: Seq<DatedTokens>,
    after: UtcTimestamp,
    until: UtcTimestamp,
    kind: TokenKind,
    most: nat,
    n: int,
)
    requires
        0 <= n <= events.len(),
        forall|e: int| 0 <= e < events.len() ==> (#[trigger] events[e]).tokens.count(kind) <= most,
    ensures
        spent_between(events, after, until, kind, n) <= most * n,
    decreases n,
{
    if n > 0 {
        lemma_tokens_are_bounded(events, after, until, kind, most, n - 1);
        assert(events[n - 1].tokens.count(kind) <= most);
        assert(most * n == most * (n - 1) + most) by (nonlinear_arith);
    } else {
        assert(most * 0 == 0) by (nonlinear_arith);
    }
}

/// Tokens can be counted over every interval wherever the greatest count, as often as
/// there are events, can be held.
pub proof fn law_few_tokens_are_countable(
    usable: Seq<FitObservation>,
    events: Seq<DatedTokens>,
    most: nat,
)
    requires
        most * events.len() <= u64::MAX,
        forall|e: int, kind: TokenKind|
            #![trigger events[e], TokenKind::name(kind)]
            0 <= e < events.len() ==> events[e].tokens.count(kind) <= most,
    ensures
        all_countable(usable, events),
{
    assert forall|k: int| 1 <= k < usable.len() implies interval_countable(
        events,
        usable[k - 1].at,
        (#[trigger] usable[k]).at,
    ) by {
        let (after, until) = (usable[k - 1].at, usable[k].at);
        assert forall|kind: TokenKind| #[trigger]
            interval_tokens(events, after, until, kind) <= u64::MAX by {
            assert forall|e: int| 0 <= e < events.len() implies (
            #[trigger] events[e]).tokens.count(kind) <= most by {
                let name = TokenKind::name(kind);
            }
            lemma_tokens_are_bounded(events, after, until, kind, most, events.len() as int);
        }
    }
}

/// A joint fit observes its blocks: the same, in their order, each under its own name and
/// with its own tokens.
pub proof fn law_joint_fits_observe_their_blocks(
    blocks: Seq<SettledBlock>,
    observations: Seq<TokenObservation>,
    i: int,
)
    requires
        block_observations(blocks, observations),
        0 <= i < blocks.len(),
    ensures
        observations.len() == blocks.len(),
        observations[i].evidence_id@ == blocks[i].evidence_id@,
        observations[i].tokens.input == blocks[i].tokens.input,
        observations[i].tokens.output == blocks[i].tokens.output,
        observations[i].tokens.cache_read == blocks[i].tokens.cache_read,
        observations[i].tokens.cache_write == blocks[i].tokens.cache_write,
{
    assert(observations[i].tokens == blocks[i].tokens);
}

/// Usage that cannot be folded is refused for the first row of the account whose class is
/// not known, by the name of that class.
pub proof fn law_unknown_usage_is_named(
    account: Seq<char>,
    usage: Seq<StoredUsageEvent>,
    markers: Seq<SessionMarkers>,
    error: ErrorView,
    row: int,
)
    requires
        ({
            let own = own_rows(usage, markers, account, usage.len() as int);
            &&& 0 <= row < own.len()
            &&& TokenKind::named(own[row].token_class@) is None
            &&& forall|k: int|
                0 <= k < row ==> TokenKind::named((#[trigger] own[k]).token_class@) is Some
        }),
    ensures
        unknown_usage(account, usage, markers, error) <==> error == ErrorView::InsufficientEvidence(
            "unknown token class '"@ + own_rows(
                usage,
                markers,
                account,
                usage.len() as int,
            )[row].token_class@ + "' in usage event"@,
        ),
{
    let own = own_rows(usage, markers, account, usage.len() as int);
    law_unknown_classes_are_named(own);
    law_the_first_unknown_class_is_named(own);
    let first = known_rows(own) as int;
    if first < row {
        assert(TokenKind::named(own[first].token_class@) is Some);
    }
    if first > row {
        assert(own[row].token_class@ == "input"@ || own[row].token_class@ == "output"@
            || own[row].token_class@ == "cache_read"@ || own[row].token_class@ == "cache_write"@);
    }
    assert(first == row);
}

} // verus!
