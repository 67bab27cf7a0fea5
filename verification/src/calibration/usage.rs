//! Usage on its way into a fit: component rows folded into one token vector per event,
//! events valued in credits, and credits accumulated up to each meter reading.

use crate::calibration::fitter::FitObservation;
use crate::domain::{
    law_token_classes_have_their_own_names, Credits, KnownTokenVector, TokenKind, UtcTimestamp,
};
use crate::error::{Error, ErrorView};
use crate::order::{
    lemma_placed_by_insertion, lemma_stable_order, positions, stable_order, total_preorder,
};
use crate::records::{StoredFitObservation, StoredUsageEvent};
use crate::sets::{
    ascending, inserted, join_texts, joined, lemma_inserted_at, lemma_inserted_present,
    lemma_ordered_set, ordered_set, texts,
};
use crate::text::{comes_before, lemma_text_order_total, same_text, text_before};
use vstd::prelude::*;
use vstd::string::*;

verus! {

/// The tokens of one usage event.
#[derive(Debug, PartialEq, Eq)]
pub struct EventTokens {
    pub event_id: String,
    pub at: UtcTimestamp,
    pub tokens: KnownTokenVector,
}

/// The event of each component row.
pub open spec fn row_events(rows: Seq<StoredUsageEvent>) -> Seq<Seq<char>> {
    rows.map_values(|r: StoredUsageEvent| r.canonical_event_id@)
}

/// The event of each entry.
pub open spec fn entry_events(entries: Seq<EventTokens>) -> Seq<Seq<char>> {
    entries.map_values(|e: EventTokens| e.event_id@)
}

/// How many tokens of a class the rows of an event add up to.
pub open spec fn class_total(rows: Seq<StoredUsageEvent>, event: Seq<char>, kind: TokenKind) -> nat
    decreases rows.len(),
{
    if rows.len() == 0 {
        0
    } else {
        let last = rows.last();
        let before = class_total(rows.drop_last(), event, kind);
        if last.canonical_event_id@ == event && TokenKind::named(last.token_class@) == Some(kind) {
            before + last.count as nat
        } else {
            before
        }
    }
}

/// When the first row of an event was recorded.
pub open spec fn first_seen(rows: Seq<StoredUsageEvent>, event: Seq<char>) -> Option<UtcTimestamp>
    decreases rows.len(),
{
    if rows.len() == 0 {
        None
    } else {
        match first_seen(rows.drop_last(), event) {
            Some(at) => Some(at),
            None => if rows.last().canonical_event_id@ == event {
                Some(rows.last().timestamp)
            } else {
                None
            },
        }
    }
}

/// Whether a row carries a known class.
pub open spec fn known_class(row: StoredUsageEvent) -> bool {
    TokenKind::named(row.token_class@) is Some
}

/// How many rows come before the first one of an unknown class.
pub open spec fn known_rows(rows: Seq<StoredUsageEvent>) -> nat
    decreases rows.len(),
{
    if rows.len() == 0 {
        0
    } else {
        let before = known_rows(rows.drop_last());
        if before < rows.len() - 1 || !known_class(rows.last()) {
            before
        } else {
            rows.len()
        }
    }
}

/// Whether every row is of a known class.
pub open spec fn all_known(rows: Seq<StoredUsageEvent>) -> bool {
    known_rows(rows) == rows.len()
}

/// Whether the entries are the rows folded by event: one entry for each event in order,
/// at the time of its first row, with the total of each class.
pub open spec fn folded(rows: Seq<StoredUsageEvent>, entries: Seq<EventTokens>) -> bool {
    &&& entry_events(entries) == ordered_set(row_events(rows))
    &&& forall|i: int| 0 <= i < entries.len() ==> #[trigger] folded_entry(rows, entries[i])
}

/// Whether an entry holds what the rows say of its event.
pub open spec fn folded_entry(rows: Seq<StoredUsageEvent>, entry: EventTokens) -> bool {
    &&& first_seen(rows, entry.event_id@) == Some(entry.at)
    &&& forall|kind: TokenKind| #[trigger]
        entry.tokens.count(kind) == class_total(rows, entry.event_id@, kind)
}

proof fn lemma_known_rows(rows: Seq<StoredUsageEvent>, n: int)
    requires
        0 <= n <= rows.len(),
        forall|i: int| 0 <= i < n ==> known_class(#[trigger] rows[i]),
    ensures
        known_rows(rows) >= n,
        known_rows(rows) <= rows.len(),
        n < rows.len() && !known_class(rows[n]) ==> known_rows(rows) == n,
    decreases rows.len(),
{
    if rows.len() > 0 {
        let shorter = rows.drop_last();
        assert forall|i: int| 0 <= i < n && i < shorter.len() implies known_class(
            #[trigger] shorter[i],
        ) by {
            assert(shorter[i] == rows[i]);
        }
        let m = if n < rows.len() {
            n
        } else {
            n - 1
        };
        lemma_known_rows(shorter, m);
        if n < shorter.len() {
            assert(shorter[n] == rows[n]);
        }
        if n == rows.len() {
            assert(known_class(rows[n - 1]));
        }
    }
}

proof fn lemma_class_total_grows(
    rows: Seq<StoredUsageEvent>,
    n: int,
    event: Seq<char>,
    kind: TokenKind,
)
    requires
        0 <= n <= rows.len(),
    ensures
        class_total(rows.take(n), event, kind) <= class_total(rows, event, kind),
    decreases rows.len(),
{
    if n == rows.len() {
        assert(rows.take(n) =~= rows);
    } else {
        let shorter = rows.drop_last();
        lemma_class_total_grows(shorter, n, event, kind);
        assert(shorter.take(n) =~= rows.take(n));
    }
}

proof fn lemma_unseen(rows: Seq<StoredUsageEvent>, event: Seq<char>)
    ensures
        first_seen(rows, event) is Some <==> row_events(rows).contains(event),
        !row_events(rows).contains(event) ==> forall|kind: TokenKind| #[trigger]
            class_total(rows, event, kind) == 0,
    decreases rows.len(),
{
    if rows.len() > 0 {
        let shorter = rows.drop_last();
        let last = rows.last();
        lemma_unseen(shorter, event);
        let all = row_events(rows);
        let most = row_events(shorter);
        assert(all =~= most.push(last.canonical_event_id@));
        assert(all[rows.len() - 1] == last.canonical_event_id@);
        if most.contains(event) {
            let k = choose|k: int| 0 <= k < most.len() && most[k] == event;
            assert(all[k] == event);
        }
        if all.contains(event) && last.canonical_event_id@ != event {
            let k = choose|k: int| 0 <= k < all.len() && all[k] == event;
            assert(most[k] == event);
        }
        if !all.contains(event) {
            assert forall|kind: TokenKind| #[trigger] class_total(rows, event, kind) == 0 by {
                assert(class_total(shorter, event, kind) == 0);
            }
        }
    }
}

/// Puts one more row into the entries folded so far.
fn fold_row(
    entries: &mut Vec<EventTokens>,
    row: &StoredUsageEvent,
    kind: TokenKind,
    Ghost(rows): Ghost<Seq<StoredUsageEvent>>,
)
    requires
        folded(rows, old(entries)@),
        TokenKind::named(row.token_class@) == Some(kind),
        class_total(rows.push(*row), row.canonical_event_id@, kind) <= u64::MAX,
    ensures
        folded(rows.push(*row), final(entries)@),
{
    let ghost before = entries@;
    let ghost events = entry_events(before);
    let ghost event = row.canonical_event_id@;
    let ghost more = rows.push(*row);
    proof {
        lemma_ordered_set(row_events(rows));
        lemma_unseen(rows, event);
        assert(more.drop_last() =~= rows);
        assert(row_events(more).drop_last() =~= row_events(rows));
        assert(row_events(more).last() == event);
    }
    let mut slot: usize = entries.len();
    let mut found: bool = false;
    while slot > 0 && !found
        invariant
            slot <= entries@.len(),
            entries@ == before,
            events == entry_events(before),
            event == row.canonical_event_id@,
            found ==> slot < before.len() && events[slot as int] == event,
            forall|k: int|
                (if found {
                    slot + 1
                } else {
                    slot as int
                }) <= k < events.len() ==> !text_before(#[trigger] events[k], event) && events[k]
                    != event,
        ensures
            slot <= entries@.len(),
            entries@ == before,
            found ==> slot < before.len() && events[slot as int] == event,
            forall|k: int|
                (if found {
                    slot + 1
                } else {
                    slot as int
                }) <= k < events.len() ==> !text_before(#[trigger] events[k], event) && events[k]
                    != event,
            !found ==> slot == 0 || text_before(events[slot - 1], event),
        decreases slot,
    {
        let id: &str = entries[slot - 1].event_id.as_str();
        assert(events[slot - 1] == id@);
        if same_text(id, row.canonical_event_id.as_str()) {
            slot = slot - 1;
            found = true;
        } else if comes_before(id, row.canonical_event_id.as_str()) {
            break ;
        } else {
            slot = slot - 1;
        }
    }
    proof {
        assert forall|e: EventTokens| #[trigger] folded_entry(rows, e) && e.event_id@
            != event implies folded_entry(more, e) by {
            assert forall|k: TokenKind| #[trigger] e.tokens.count(k) == class_total(
                more,
                e.event_id@,
                k,
            ) by {
                assert(e.tokens.count(k) == class_total(rows, e.event_id@, k));
            }
        }
    }
    if found {
        let old_tokens: KnownTokenVector = entries[slot].tokens;
        let at: UtcTimestamp = entries[slot].at;
        proof {
            lemma_inserted_present(events, event, slot as int);
            assert(folded_entry(rows, before[slot as int]));
            assert(old_tokens.count(kind) == class_total(rows, event, kind));
        }
        let entry: EventTokens = EventTokens {
            event_id: entries[slot].event_id.clone(),
            at,
            tokens: old_tokens.plus(kind, row.count),
        };
        proof {
            assert(entry.event_id@ == event);
            assert forall|k: TokenKind| #[trigger] entry.tokens.count(k) == class_total(
                more,
                event,
                k,
            ) by {
                assert(old_tokens.count(k) == class_total(rows, event, k));
            }
            assert(folded_entry(more, entry));
        }
        entries.set(slot, entry);
        proof {
            let after = entries@;
            assert(after == before.update(slot as int, entry));
            assert(entry_events(after) =~= events);
            assert forall|i: int| 0 <= i < after.len() implies #[trigger] folded_entry(
                more,
                after[i],
            ) by {
                if i != slot {
                    assert(folded_entry(rows, before[i]));
                    assert(ascending(events));
                    lemma_text_order_total(events[i], events[slot as int]);
                    if i < slot {
                        assert(text_before(events[i], events[slot as int]));
                    } else {
                        assert(text_before(events[slot as int], events[i]));
                    }
                    assert(before[i].event_id@ == events[i]);
                    assert(after[i] == before[i]);
                }
            }
        }
    } else {
        let zero: KnownTokenVector = KnownTokenVector::new(0, 0, 0, 0);
        proof {
            lemma_inserted_at(events, event, slot as int);
            assert(!events.contains(event)) by {
                if events.contains(event) {
                    let k = choose|k: int| 0 <= k < events.len() && events[k] == event;
                    if k < slot {
                        if k < slot - 1 {
                            assert(text_before(events[k], events[slot - 1]));
                        }
                        lemma_text_order_total(events[slot - 1], event);
                    }
                }
            }
            assert(!row_events(rows).contains(event));
            assert(class_total(rows, event, kind) == 0);
        }
        let entry: EventTokens = EventTokens {
            event_id: row.canonical_event_id.clone(),
            at: row.timestamp,
            tokens: zero.plus(kind, row.count),
        };
        proof {
            assert forall|k: TokenKind| #[trigger] entry.tokens.count(k) == class_total(
                more,
                event,
                k,
            ) by {
                assert(zero.count(k) == 0);
                assert(class_total(rows, event, k) == 0);
            }
            assert(folded_entry(more, entry));
        }
        entries.insert(slot, entry);
        proof {
            let after = entries@;
            assert(after == before.insert(slot as int, entry));
            assert(entry_events(after) =~= events.insert(slot as int, event));
            assert forall|i: int| 0 <= i < after.len() implies #[trigger] folded_entry(
                more,
                after[i],
            ) by {
                if i != slot {
                    let j = if i < slot {
                        i
                    } else {
                        i - 1
                    };
                    assert(after[i] == before[j]);
                    assert(folded_entry(rows, before[j]));
                    assert(events[j] == before[j].event_id@);
                    assert(events.contains(events[j]));
                }
            }
        }
    }
}

/// Folds the component rows of usage events into one token vector per event, in order
/// of the events. A row of an unknown class is refused rather than dropped: dropped
/// tokens would fit as if they had never been spent.
pub fn aggregate_event_tokens(usage_events: &Vec<StoredUsageEvent>) -> (entries: Result<
    Vec<EventTokens>,
    Error,
>)
    requires
        countable(usage_events@),
    ensures
        match entries {
            Ok(list) => {
                &&& all_known(usage_events@)
                &&& forall|i: int|
                    0 <= i < usage_events@.len() ==> known_class(#[trigger] usage_events@[i])
                &&& folded(usage_events@, list@)
            },
            Err(error) => {
                let first = known_rows(usage_events@) as int;
                &&& first < usage_events@.len()
                &&& !known_class(usage_events@[first])
                &&& error@ == unknown_class_error(usage_events@)
            },
        },
{
    let mut entries: Vec<EventTokens> = Vec::new();
    let mut i: usize = 0;
    let ghost admitted = usage_events@.take(known_rows(usage_events@) as int);
    proof {
        assert(usage_events@.take(0) =~= Seq::empty());
        assert(row_events(usage_events@.take(0)) =~= Seq::empty());
        assert(entry_events(entries@) =~= Seq::empty());
    }
    while i < usage_events.len()
        invariant
            i <= usage_events@.len(),
            admitted == usage_events@.take(known_rows(usage_events@) as int),
            forall|event: Seq<char>, kind: TokenKind| #[trigger]
                class_total(admitted, event, kind) <= u64::MAX,
            forall|k: int| 0 <= k < i ==> known_class(#[trigger] usage_events@[k]),
            folded(usage_events@.take(i as int), entries@),
        decreases usage_events@.len() - i,
    {
        let row: &StoredUsageEvent = &usage_events[i];
        proof {
            lemma_known_rows(usage_events@, i as int);
        }
        let kind: TokenKind = match TokenKind::from_name(row.token_class.as_str()) {
            Some(kind) => kind,
            None => {
                let mut message: String = "unknown token class '".to_owned();
                message.append(row.token_class.as_str());
                message.append("' in usage event");
                return Err(Error::InsufficientEvidence(message));
            },
        };
        proof {
            assert forall|k: int| 0 <= k < i + 1 implies known_class(
                #[trigger] usage_events@[k],
            ) by {}
            lemma_known_rows(usage_events@, i + 1);
            lemma_class_total_grows(admitted, i + 1, row.canonical_event_id@, kind);
            assert(admitted.take(i + 1) =~= usage_events@.take(i as int).push(*row));
            assert(usage_events@.take(i + 1) =~= usage_events@.take(i as int).push(*row));
        }
        fold_row(&mut entries, row, kind, Ghost(usage_events@.take(i as int)));
        i = i + 1;
    }
    proof {
        lemma_known_rows(usage_events@, usage_events@.len() as int);
        assert(usage_events@.take(usage_events@.len() as int) =~= usage_events@);
    }
    Ok(entries)
}

/// Rows fold in one way: whoever folds them finds the same events, at the same moments,
/// with the same tokens.
pub proof fn law_rows_fold_in_one_way(
    rows: Seq<StoredUsageEvent>,
    a: Seq<EventTokens>,
    b: Seq<EventTokens>,
)
    requires
        folded(rows, a),
        folded(rows, b),
    ensures
        a.len() == b.len(),
        forall|i: int|
            0 <= i < a.len() ==> (#[trigger] a[i]).event_id@ == b[i].event_id@ && a[i].at == b[i].at
                && a[i].tokens == b[i].tokens,
{
    assert(entry_events(a).len() == a.len());
    assert(entry_events(b).len() == b.len());
    assert forall|i: int| 0 <= i < a.len() implies (#[trigger] a[i]).event_id@ == b[i].event_id@
        && a[i].at == b[i].at && a[i].tokens == b[i].tokens by {
        assert(entry_events(a)[i] == entry_events(b)[i]);
        assert(folded_entry(rows, a[i]) && folded_entry(rows, b[i]));
        assert(a[i].tokens.count(TokenKind::Input) == b[i].tokens.count(TokenKind::Input));
        assert(a[i].tokens.count(TokenKind::Output) == b[i].tokens.count(TokenKind::Output));
        assert(a[i].tokens.count(TokenKind::CacheRead) == b[i].tokens.count(TokenKind::CacheRead));
        assert(a[i].tokens.count(TokenKind::CacheWrite) == b[i].tokens.count(
            TokenKind::CacheWrite,
        ));
    }
}

/// All tokens of a class over all rows.
pub open spec fn grand_total(rows: Seq<StoredUsageEvent>, kind: TokenKind) -> nat
    decreases rows.len(),
{
    if rows.len() == 0 {
        0
    } else {
        let before = grand_total(rows.drop_last(), kind);
        if TokenKind::named(rows.last().token_class@) == Some(kind) {
            before + rows.last().count as nat
        } else {
            before
        }
    }
}

/// The sum of a class over a list of events.
pub open spec fn sum_over(
    rows: Seq<StoredUsageEvent>,
    events: Seq<Seq<char>>,
    kind: TokenKind,
) -> nat
    decreases events.len(),
{
    if events.len() == 0 {
        0
    } else {
        sum_over(rows, events.drop_last(), kind) + class_total(rows, events.last(), kind)
    }
}

/// Folding loses no token: the entries of all events together hold what the rows hold.
pub proof fn law_folding_keeps_every_token(rows: Seq<StoredUsageEvent>, kind: TokenKind)
    ensures
        sum_over(rows, ordered_set(row_events(rows)), kind) == grand_total(rows, kind),
    decreases rows.len(),
{
    if rows.len() == 0 {
        assert(row_events(rows) =~= Seq::empty());
    } else {
        let shorter = rows.drop_last();
        let last = rows.last();
        let event = last.canonical_event_id@;
        law_folding_keeps_every_token(shorter, kind);
        let before = ordered_set(row_events(shorter));
        let after = ordered_set(row_events(rows));
        assert(row_events(rows).drop_last() =~= row_events(shorter));
        assert(after == inserted(before, event));
        lemma_ordered_set(row_events(shorter));
        lemma_unseen(shorter, event);
        lemma_sum_inserted(rows, before, event, kind);
        lemma_sum_one_more_row(rows, before, kind);
        assert(before.contains(event) == row_events(shorter).contains(event));
        if !before.contains(event) {
            assert(class_total(shorter, event, kind) == 0);
        }
    }
}

proof fn lemma_sum_inserted(
    rows: Seq<StoredUsageEvent>,
    events: Seq<Seq<char>>,
    event: Seq<char>,
    kind: TokenKind,
)
    requires
        ascending(events),
    ensures
        sum_over(rows, inserted(events, event), kind) == sum_over(rows, events, kind) + (
        if events.contains(event) {
            0
        } else {
            class_total(rows, event, kind)
        }),
    decreases events.len(),
{
    let out = inserted(events, event);
    if events.len() == 0 || text_before(events.last(), event) {
        assert(out.drop_last() =~= events);
        if events.contains(event) {
            let k = choose|k: int| 0 <= k < events.len() && events[k] == event;
            lemma_text_order_total(events.last(), event);
            if k < events.len() - 1 {
                assert(text_before(events[k], events[events.len() - 1]));
            }
        }
    } else if events.last() == event {
        assert(events[events.len() - 1] == event);
    } else {
        let shorter = events.drop_last();
        lemma_sum_inserted(rows, shorter, event, kind);
        assert(out.drop_last() =~= inserted(shorter, event));
        if events.contains(event) {
            let k = choose|k: int| 0 <= k < events.len() && events[k] == event;
            assert(shorter[k] == event);
        }
        if shorter.contains(event) {
            let k = choose|k: int| 0 <= k < shorter.len() && shorter[k] == event;
            assert(events[k] == event);
        }
    }
}

proof fn lemma_sum_one_more_row(
    rows: Seq<StoredUsageEvent>,
    events: Seq<Seq<char>>,
    kind: TokenKind,
)
    requires
        rows.len() > 0,
        ascending(events),
    ensures
        sum_over(rows, events, kind) == sum_over(rows.drop_last(), events, kind) + (
        if events.contains(rows.last().canonical_event_id@) && TokenKind::named(
            rows.last().token_class@,
        ) == Some(kind) {
            rows.last().count as nat
        } else {
            0
        }),
    decreases events.len(),
{
    let event = rows.last().canonical_event_id@;
    if events.len() > 0 {
        let shorter = events.drop_last();
        lemma_sum_one_more_row(rows, shorter, kind);
        if events.last() == event {
            assert(events[events.len() - 1] == event);
            if shorter.contains(event) {
                let k = choose|k: int| 0 <= k < shorter.len() && shorter[k] == event;
                assert(text_before(events[k], events[events.len() - 1]));
                lemma_text_order_total(event, event);
            }
        } else {
            if events.contains(event) {
                let k = choose|k: int| 0 <= k < events.len() && events[k] == event;
                assert(shorter[k] == event);
            }
            if shorter.contains(event) {
                let k = choose|k: int| 0 <= k < shorter.len() && shorter[k] == event;
                assert(events[k] == event);
            }
        }
    }
}

/// What a cost model made of one event: its credits, or the facts it misses.
#[derive(Debug, PartialEq, Eq)]
pub enum EventValue {
    Credits(Credits),
    Missing(Vec<String>),
}

/// One event as a cost model values it.
#[derive(Debug, PartialEq, Eq)]
pub struct ValuedEvent {
    pub at: UtcTimestamp,
    pub value: EventValue,
}

/// Credits spent at one moment.
#[derive(Debug, Clone, Copy, PartialEq, Eq, Structural)]
pub struct Spend {
    pub at: UtcTimestamp,
    pub credits: Credits,
}

/// How many events come before the first one without a value.
pub open spec fn valued_prefix(events: Seq<ValuedEvent>) -> nat
    decreases events.len(),
{
    if events.len() == 0 {
        0
    } else {
        let before = valued_prefix(events.drop_last());
        if before < events.len() - 1 || events.last().value is Missing {
            before
        } else {
            events.len()
        }
    }
}

/// Whether one event is no later than another.
pub open spec fn event_no_later(events: Seq<ValuedEvent>) -> spec_fn(int, int) -> bool {
    |a: int, b: int| events[a].at.nanos <= events[b].at.nanos
}

/// The spend of valued events in order of time, events of the same moment in the order
/// given.
pub open spec fn spend_series(events: Seq<ValuedEvent>) -> Seq<Spend> {
    stable_order(events.len(), |i: int| true, event_no_later(events)).map_values(
        |i: int| Spend { at: events[i].at, credits: events[i].value->Credits_0 },
    )
}

proof fn lemma_valued_prefix(events: Seq<ValuedEvent>, n: int)
    requires
        0 <= n <= events.len(),
        forall|i: int| 0 <= i < n ==> (#[trigger] events[i]).value is Credits,
    ensures
        n <= valued_prefix(events) <= events.len(),
        n < events.len() && events[n].value is Missing ==> valued_prefix(events) == n,
    decreases events.len(),
{
    if events.len() > 0 {
        let shorter = events.drop_last();
        let m = if n < events.len() {
            n
        } else {
            n - 1
        };
        assert forall|i: int| 0 <= i < m implies (#[trigger] shorter[i]).value is Credits by {
            assert(shorter[i] == events[i]);
        }
        lemma_valued_prefix(shorter, m);
        if n < shorter.len() {
            assert(shorter[n] == events[n]);
        }
        if n == events.len() {
            assert(events[n - 1].value is Credits);
        }
    }
}

/// The credits spent in an interval in order of time. An event that the cost model
/// cannot value is refused with the facts it misses.
pub fn credit_series(events: &Vec<ValuedEvent>) -> (series: Result<Vec<Spend>, Error>)
    ensures
        match series {
            Ok(list) => {
                &&& forall|i: int|
                    0 <= i < events@.len() ==> (#[trigger] events@[i]).value is Credits
                &&& list@ == spend_series(events@)
            },
            Err(error) => {
                let first = valued_prefix(events@) as int;
                &&& first < events@.len()
                &&& events@[first].value is Missing
                &&& error@ == ErrorView::InsufficientEvidence(
                    "incomplete cost model: missing facts ["@ + joined(
                        texts(events@[first].value->Missing_0@),
                        ", "@,
                    ) + "]"@,
                )
            },
        },
{
    let ghost keep = |i: int| true;
    let ghost leq = event_no_later(events@);
    let ghost as_spend = |i: int| Spend { at: events@[i].at, credits: events@[i].value->Credits_0 };
    let mut order: Vec<usize> = Vec::new();
    let mut series: Vec<Spend> = Vec::new();
    let mut i: usize = 0;
    assert(positions(order@) =~= Seq::empty());
    assert(series@ =~= positions(order@).map_values(as_spend));
    while i < events.len()
        invariant
            i <= events@.len(),
            keep == (|i: int| true),
            leq == event_no_later(events@),
            as_spend == (|i: int|
                Spend { at: events@[i].at, credits: events@[i].value->Credits_0 }),
            positions(order@) == stable_order(i as nat, keep, leq),
            series@ == positions(order@).map_values(as_spend),
            forall|k: int| 0 <= k < order@.len() ==> #[trigger] order@[k] < i,
            forall|k: int| 0 <= k < i ==> (#[trigger] events@[k]).value is Credits,
        decreases events@.len() - i,
    {
        let event: &ValuedEvent = &events[i];
        proof {
            lemma_valued_prefix(events@, i as int);
        }
        let credits: Credits = match &event.value {
            EventValue::Credits(credits) => *credits,
            EventValue::Missing(facts) => {
                let mut message: String = "incomplete cost model: missing facts [".to_owned();
                message.append(join_texts(facts, ", ").as_str());
                message.append("]");
                return Err(Error::InsufficientEvidence(message));
            },
        };
        let mut slot: usize = series.len();
        while slot > 0 && series[slot - 1].at.unix_nanos() > event.at.unix_nanos()
            invariant
                slot <= series@.len(),
                series@.len() == order@.len(),
                i < events@.len(),
                *event == events@[i as int],
                leq == event_no_later(events@),
                as_spend == (|i: int|
                    Spend { at: events@[i].at, credits: events@[i].value->Credits_0 }),
                series@ == positions(order@).map_values(as_spend),
                forall|k: int|
                    slot <= k < order@.len() ==> !leq(#[trigger] positions(order@)[k], i as int),
            decreases slot,
        {
            slot = slot - 1;
        }
        let spend: Spend = Spend { at: event.at, credits };
        proof {
            lemma_placed_by_insertion(positions(order@), i as int, leq, slot as int);
            assert(positions(order@.insert(slot as int, i)) =~= positions(order@).insert(
                slot as int,
                i as int,
            ));
            assert(as_spend(i as int) == spend);
            assert(positions(order@).insert(slot as int, i as int).map_values(as_spend)
                =~= series@.insert(slot as int, spend));
        }
        order.insert(slot, i);
        series.insert(slot, spend);
        i = i + 1;
    }
    Ok(series)
}

/// The credits of the first `n` entries that were spent by a moment.
pub open spec fn spent_by(series: Seq<Spend>, at: UtcTimestamp, n: int) -> int
    decreases n,
{
    if n <= 0 {
        0
    } else {
        spent_by(series, at, n - 1) + if series[n - 1].at.nanos <= at.nanos {
            series[n - 1].credits.micros as int
        } else {
            0
        }
    }
}

/// Whether a running total of credits stays representable up to a moment.
pub open spec fn total_fits(series: Seq<Spend>, at: UtcTimestamp) -> bool {
    forall|n: int|
        0 <= n <= series.len() ==> i64::MIN <= #[trigger] spent_by(series, at, n) <= i64::MAX
}

/// The credits spent by a moment; nothing where a running total is not representable.
pub fn cumulative_credits(series: &Vec<Spend>, at: UtcTimestamp) -> (total: Option<Credits>)
    ensures
        match total {
            Some(credits) => total_fits(series@, at) && credits.micros == spent_by(
                series@,
                at,
                series@.len() as int,
            ),
            None => !total_fits(series@, at),
        },
{
    let mut total: i64 = 0;
    let mut n: usize = 0;
    while n < series.len()
        invariant
            n <= series@.len(),
            total == spent_by(series@, at, n as int),
            forall|k: int|
                0 <= k <= n ==> i64::MIN <= #[trigger] spent_by(series@, at, k) <= i64::MAX,
        decreases series@.len() - n,
    {
        if series[n].at.unix_nanos() <= at.unix_nanos() {
            match total.checked_add(series[n].credits.micros()) {
                Some(next) => {
                    total = next;
                },
                None => {
                    assert(!(i64::MIN <= spent_by(series@, at, n + 1) <= i64::MAX));
                    return None;
                },
            }
        }
        n = n + 1;
    }
    Some(Credits::from_micros(total))
}

/// A reading paired with the credits spent up to it.
pub open spec fn paired(reading: StoredFitObservation, series: Seq<Spend>, out: FitObservation) -> bool {
    &&& out.evidence_id@ == reading.evidence_id@
    &&& out.at == reading.at
    &&& out.quota_used_ppm == reading.quota_used_ppm
    &&& out.reported_resolution_ppm == reading.reported_resolution_ppm
    &&& out.quantization == reading.quantization
    &&& out.cumulative_credits.micros == spent_by(series, reading.at, series.len() as int)
}

/// Pairs each reading with the credits spent up to it; nothing where a running total is
/// not representable.
pub fn observations_with_cumulative_credits(
    stored: &Vec<StoredFitObservation>,
    series: &Vec<Spend>,
) -> (observations: Option<Vec<FitObservation>>)
    ensures
        match observations {
            Some(list) => {
                &&& list@.len() == stored@.len()
                &&& forall|i: int|
                    0 <= i < stored@.len() ==> paired(stored@[i], series@, #[trigger] list@[i])
                &&& forall|i: int|
                    0 <= i < stored@.len() ==> total_fits(series@, (#[trigger] stored@[i]).at)
            },
            None => exists|i: int|
                0 <= i < stored@.len() && !total_fits(series@, (#[trigger] stored@[i]).at),
        },
{
    let mut list: Vec<FitObservation> = Vec::new();
    let mut i: usize = 0;
    while i < stored.len()
        invariant
            i <= stored@.len(),
            list@.len() == i,
            forall|k: int| 0 <= k < i ==> paired(stored@[k], series@, #[trigger] list@[k]),
            forall|k: int| 0 <= k < i ==> total_fits(series@, (#[trigger] stored@[k]).at),
        decreases stored@.len() - i,
    {
        let reading: &StoredFitObservation = &stored[i];
        match cumulative_credits(series, reading.at) {
            Some(credits) => {
                list.push(
                    FitObservation::new(
                        reading.evidence_id.clone(),
                        reading.at,
                        reading.quota_used_ppm,
                        reading.reported_resolution_ppm,
                        reading.quantization,
                        credits,
                    ),
                );
            },
            None => {
                assert(!total_fits(series@, stored@[i as int].at));
                return None;
            },
        }
        i = i + 1;
    }
    Some(list)
}

/// Where no spend is negative, a later reading carries at least the credits of an
/// earlier one.
pub proof fn law_spend_accumulates(
    series: Seq<Spend>,
    earlier: UtcTimestamp,
    later: UtcTimestamp,
    n: int,
)
    requires
        earlier.nanos <= later.nanos,
        0 <= n <= series.len(),
        forall|i: int| 0 <= i < series.len() ==> (#[trigger] series[i]).credits.micros >= 0,
    ensures
        0 <= spent_by(series, earlier, n) <= spent_by(series, later, n),
    decreases n,
{
    if n > 0 {
        law_spend_accumulates(series, earlier, later, n - 1);
        assert(series[n - 1].credits.micros >= 0);
    }
}

/// Whether every event's tokens of a class are countable, up to the first row of an
/// unknown class.
pub open spec fn countable(rows: Seq<StoredUsageEvent>) -> bool {
    forall|event: Seq<char>, kind: TokenKind| #[trigger]
        class_total(rows.take(known_rows(rows) as int), event, kind) <= u64::MAX
}

fn event_class_fits(rows: &Vec<StoredUsageEvent>, n: usize, of: usize, kind: TokenKind) -> (fits: bool)
    requires
        n <= rows@.len(),
        of < n,
    ensures
        fits == (class_total(
            rows@.take(n as int),
            rows@[of as int].canonical_event_id@,
            kind,
        ) <= u64::MAX),
{
    let ghost event = rows@[of as int].canonical_event_id@;
    let ghost known = rows@.take(n as int);
    let mut total: u64 = 0;
    let mut i: usize = 0;
    assert(known.take(0) =~= Seq::empty());
    while i < n
        invariant
            i <= n <= rows@.len(),
            of < n,
            event == rows@[of as int].canonical_event_id@,
            known == rows@.take(n as int),
            total == class_total(known.take(i as int), event, kind),
        decreases n - i,
    {
        assert(known.take(i + 1).drop_last() =~= known.take(i as int));
        assert(known.take(i + 1).last() == rows@[i as int]);
        let class: Option<TokenKind> = TokenKind::from_name(rows[i].token_class.as_str());
        if class == Some(kind) && same_text(
            rows[i].canonical_event_id.as_str(),
            rows[of].canonical_event_id.as_str(),
        ) {
            match total.checked_add(rows[i].count) {
                Some(next) => {
                    total = next;
                },
                None => {
                    proof {
                        lemma_class_total_grows(known, i + 1, event, kind);
                    }
                    return false;
                },
            }
        }
        i = i + 1;
    }
    assert(known.take(n as int) =~= known);
    true
}

/// Whether every event's tokens of a class are countable.
pub fn is_countable(rows: &Vec<StoredUsageEvent>) -> (fits: bool)
    ensures
        fits == countable(rows@),
{
    let mut n: usize = 0;
    while n < rows.len() && TokenKind::from_name(rows[n].token_class.as_str()).is_some()
        invariant
            n <= rows@.len(),
            forall|k: int| 0 <= k < n ==> known_class(#[trigger] rows@[k]),
        decreases rows@.len() - n,
    {
        n = n + 1;
    }
    proof {
        lemma_known_rows(rows@, n as int);
    }
    let ghost known = rows@.take(n as int);
    assert(known == rows@.take(known_rows(rows@) as int));
    let mut i: usize = 0;
    while i < n
        invariant
            i <= n <= rows@.len(),
            known == rows@.take(n as int),
            known == rows@.take(known_rows(rows@) as int),
            forall|k: int, kind: TokenKind|
                0 <= k < i ==> #[trigger] class_total(
                    known,
                    rows@[k].canonical_event_id@,
                    kind,
                ) <= u64::MAX,
        decreases n - i,
    {
        if !event_class_fits(rows, n, i, TokenKind::Input) || !event_class_fits(
            rows,
            n,
            i,
            TokenKind::Output,
        ) || !event_class_fits(rows, n, i, TokenKind::CacheRead) || !event_class_fits(
            rows,
            n,
            i,
            TokenKind::CacheWrite,
        ) {
            return false;
        }
        assert forall|kind: TokenKind| #[trigger] class_total(
            known,
            rows@[i as int].canonical_event_id@,
            kind,
        ) <= u64::MAX by {
            match kind {
                TokenKind::Input => {},
                TokenKind::Output => {},
                TokenKind::CacheRead => {},
                TokenKind::CacheWrite => {},
            }
        }
        i = i + 1;
    }
    proof {
        assert forall|event: Seq<char>, kind: TokenKind| #[trigger]
            class_total(known, event, kind) <= u64::MAX by {
            lemma_unseen(known, event);
            if row_events(known).contains(event) {
                let k = choose|k: int|
                    0 <= k < row_events(known).len() && row_events(known)[k] == event;
                assert(rows@[k].canonical_event_id@ == event);
            } else {
                assert(class_total(known, event, kind) == 0);
            }
        }
    }
    true
}

/// The error where some row carries an unknown class.
pub open spec fn unknown_class_error(rows: Seq<StoredUsageEvent>) -> ErrorView {
    ErrorView::InsufficientEvidence(
        "unknown token class '"@ + rows[known_rows(rows) as int].token_class@
            + "' in usage event"@,
    )
}

/// Counts add up row by row: no row counts nothing, and one more adds its count to its own
/// event and class, and to nothing else.
pub proof fn law_each_row_counts_once(
    rows: Seq<StoredUsageEvent>,
    last: StoredUsageEvent,
    event: Seq<char>,
    kind: TokenKind,
)
    ensures
        class_total(Seq::empty(), event, kind) == 0,
        class_total(rows.push(last), event, kind) == class_total(rows, event, kind) + if {
            &&& last.canonical_event_id@ == event
            &&& last.token_class@ == match kind {
                TokenKind::Input => "input"@,
                TokenKind::Output => "output"@,
                TokenKind::CacheRead => "cache_read"@,
                TokenKind::CacheWrite => "cache_write"@,
            }
        } {
            last.count as nat
        } else {
            0
        },
{
    assert(rows.push(last).drop_last() =~= rows);
    law_token_classes_have_their_own_names(last.token_class@, kind);
}

/// Folded rows in figures: there is one entry for each event, in ascending order, and no
/// other; it is dated by the first row of the event, and holds under each class the counts
/// of the rows of that event and class.
pub proof fn law_folded_entries_are_events(
    rows: Seq<StoredUsageEvent>,
    entries: Seq<EventTokens>,
    k: int,
)
    requires
        folded(rows, entries),
        0 <= k < entries.len(),
    ensures
        entries[k].tokens.input == class_total(rows, entries[k].event_id@, TokenKind::Input),
        entries[k].tokens.output == class_total(rows, entries[k].event_id@, TokenKind::Output),
        entries[k].tokens.cache_read == class_total(
            rows,
            entries[k].event_id@,
            TokenKind::CacheRead,
        ),
        entries[k].tokens.cache_write == class_total(
            rows,
            entries[k].event_id@,
            TokenKind::CacheWrite,
        ),
        exists|i: int|
            0 <= i < rows.len() && (#[trigger] rows[i]).canonical_event_id@ == entries[k].event_id@
                && rows[i].timestamp == entries[k].at && forall|m: int|
                0 <= m < i ==> (#[trigger] rows[m]).canonical_event_id@ != entries[k].event_id@,
        forall|m: int|
            k < m < entries.len() ==> text_before(
                entries[k].event_id@,
                (#[trigger] entries[m]).event_id@,
            ),
        forall|i: int|
            0 <= i < rows.len() ==> exists|m: int|
                0 <= m < entries.len() && (#[trigger] entries[m]).event_id@ == (
                #[trigger] rows[i]).canonical_event_id@,
{
    assert(folded_entry(rows, entries[k]));
    assert(entries[k].tokens.count(TokenKind::Input) == class_total(
        rows,
        entries[k].event_id@,
        TokenKind::Input,
    ));
    assert(entries[k].tokens.count(TokenKind::Output) == class_total(
        rows,
        entries[k].event_id@,
        TokenKind::Output,
    ));
    assert(entries[k].tokens.count(TokenKind::CacheRead) == class_total(
        rows,
        entries[k].event_id@,
        TokenKind::CacheRead,
    ));
    assert(entries[k].tokens.count(TokenKind::CacheWrite) == class_total(
        rows,
        entries[k].event_id@,
        TokenKind::CacheWrite,
    ));
    let first = lemma_first_seen(rows, entries[k].event_id@);
    assert(rows[first].canonical_event_id@ == entries[k].event_id@);
    let events = row_events(rows);
    let named = entry_events(entries);
    lemma_ordered_set(events);
    assert(named[k] == entries[k].event_id@);
    assert forall|m: int| k < m < entries.len() implies text_before(
        entries[k].event_id@,
        (#[trigger] entries[m]).event_id@,
    ) by {
        assert(named[m] == entries[m].event_id@);
        assert(text_before(named[k], named[m]));
    }
    assert forall|i: int| 0 <= i < rows.len() implies exists|m: int|
        0 <= m < entries.len() && (#[trigger] entries[m]).event_id@ == (
        #[trigger] rows[i]).canonical_event_id@ by {
        assert(events[i] == rows[i].canonical_event_id@);
        assert(events.contains(events[i]));
        assert(named.contains(events[i]));
        let m = choose|m: int| 0 <= m < named.len() && named[m] == events[i];
        assert(entries[m].event_id@ == rows[i].canonical_event_id@);
    }
}

/// The row that an event is dated by.
proof fn lemma_first_seen(rows: Seq<StoredUsageEvent>, event: Seq<char>) -> (first: int)
    requires
        first_seen(rows, event) is Some,
    ensures
        0 <= first < rows.len(),
        rows[first].canonical_event_id@ == event,
        first_seen(rows, event) == Some(rows[first].timestamp),
        forall|m: int| 0 <= m < first ==> (#[trigger] rows[m]).canonical_event_id@ != event,
    decreases rows.len(),
{
    let shorter = rows.drop_last();
    if first_seen(shorter, event) is Some {
        let first = lemma_first_seen(shorter, event);
        assert forall|m: int| 0 <= m < first implies (#[trigger] rows[m]).canonical_event_id@
            != event by {
            assert(shorter[m] == rows[m]);
        }
        first
    } else {
        lemma_never_seen(shorter, event);
        assert forall|m: int| 0 <= m < rows.len() - 1 implies (
        #[trigger] rows[m]).canonical_event_id@ != event by {
            assert(shorter[m] == rows[m]);
        }
        rows.len() - 1
    }
}

proof fn lemma_never_seen(rows: Seq<StoredUsageEvent>, event: Seq<char>)
    requires
        first_seen(rows, event) is None,
    ensures
        forall|m: int| 0 <= m < rows.len() ==> (#[trigger] rows[m]).canonical_event_id@ != event,
    decreases rows.len(),
{
    if rows.len() > 0 {
        let shorter = rows.drop_last();
        lemma_never_seen(shorter, event);
        assert forall|m: int| 0 <= m < rows.len() implies (#[trigger] rows[m]).canonical_event_id@
            != event by {
            if m < shorter.len() {
                assert(shorter[m] == rows[m]);
            }
        }
    }
}

/// The first row of an unknown class is the one that is named: the rows before it all
/// carry one of the four classes, and it carries none.
pub proof fn law_the_first_unknown_class_is_named(rows: Seq<StoredUsageEvent>)
    ensures
        known_rows(rows) <= rows.len(),
        forall|i: int|
            0 <= i < known_rows(rows) ==> ((#[trigger] rows[i]).token_class@ == "input"@
                || rows[i].token_class@ == "output"@ || rows[i].token_class@ == "cache_read"@
                || rows[i].token_class@ == "cache_write"@),
        known_rows(rows) < rows.len() ==> {
            let class = rows[known_rows(rows) as int].token_class@;
            class != "input"@ && class != "output"@ && class != "cache_read"@ && class
                != "cache_write"@
        },
    decreases rows.len(),
{
    if rows.len() > 0 {
        let shorter = rows.drop_last();
        law_the_first_unknown_class_is_named(shorter);
        assert forall|i: int| 0 <= i < known_rows(rows) implies ((
        #[trigger] rows[i]).token_class@ == "input"@ || rows[i].token_class@ == "output"@
            || rows[i].token_class@ == "cache_read"@ || rows[i].token_class@ == "cache_write"@) by {
            if i < known_rows(shorter) {
                assert(shorter[i] == rows[i]);
            }
        }
    }
}

/// The first event without a value is the one that is named.
pub proof fn law_the_first_missing_value_is_named(events: Seq<ValuedEvent>)
    ensures
        valued_prefix(events) <= events.len(),
        forall|i: int|
            0 <= i < valued_prefix(events) ==> (#[trigger] events[i]).value is Credits,
        valued_prefix(events) < events.len() ==> events[valued_prefix(
            events,
        ) as int].value is Missing,
    decreases events.len(),
{
    if events.len() > 0 {
        let shorter = events.drop_last();
        law_the_first_missing_value_is_named(shorter);
        assert forall|i: int| 0 <= i < valued_prefix(events) implies (
        #[trigger] events[i]).value is Credits by {
            if i < valued_prefix(shorter) {
                assert(shorter[i] == events[i]);
            }
        }
    }
}

/// A series of credits holds every event once, with its own moment and credits, in the
/// order of time.
pub proof fn law_a_credit_series_is_every_event_in_time(events: Seq<ValuedEvent>) -> (order: Seq<
    int,
>)
    ensures
        order.no_duplicates(),
        forall|i: int| #[trigger] order.contains(i) <==> 0 <= i < events.len(),
        spend_series(events).len() == order.len(),
        forall|k: int|
            0 <= k < order.len() ==> (#[trigger] spend_series(events)[k]).at
                == events[order[k]].at && spend_series(events)[k].credits
                == events[order[k]].value->Credits_0,
        forall|i: int, j: int|
            #![trigger spend_series(events)[i], spend_series(events)[j]]
            0 <= i < j < order.len() ==> spend_series(events)[i].at.nanos <= spend_series(
                events,
            )[j].at.nanos,
{
    let leq = event_no_later(events);
    assert(total_preorder(leq)) by {
        assert forall|a: int, b: int| #[trigger] leq(a, b) || leq(b, a) by {}
    }
    lemma_stable_order(events.len(), |i: int| true, leq);
    let order = stable_order(events.len(), |i: int| true, leq);
    assert forall|i: int, j: int|
        #![trigger spend_series(events)[i], spend_series(events)[j]]
        0 <= i < j < order.len() implies spend_series(events)[i].at.nanos <= spend_series(
        events,
    )[j].at.nanos by {
        assert(leq(order[i], order[j]));
    }
    order
}

proof fn lemma_spent_prefix(shorter: Seq<Spend>, longer: Seq<Spend>, at: UtcTimestamp, n: int)
    requires
        n <= shorter.len(),
        n <= longer.len(),
        forall|i: int| 0 <= i < n ==> shorter[i] == #[trigger] longer[i],
    ensures
        spent_by(shorter, at, n) == spent_by(longer, at, n),
    decreases n,
{
    if n > 0 {
        lemma_spent_prefix(shorter, longer, at, n - 1);
        assert(shorter[n - 1] == longer[n - 1]);
    }
}

/// Spend adds up: nothing was spent by a moment in an empty series, and one more entry
/// adds its credits by every moment that is not before it, and nothing by earlier ones.
pub proof fn law_each_spend_counts_from_its_moment(
    series: Seq<Spend>,
    last: Spend,
    at: UtcTimestamp,
)
    ensures
        spent_by(Seq::empty(), at, 0) == 0,
        spent_by(series.push(last), at, series.len() as int + 1) == spent_by(
            series,
            at,
            series.len() as int,
        ) + if last.at.nanos <= at.nanos {
            last.credits.micros as int
        } else {
            0
        },
{
    lemma_spent_prefix(series, series.push(last), at, series.len() as int);
}

/// A reading enters a fit as it was recorded, with what was spent by its moment.
pub proof fn law_readings_enter_as_recorded(
    reading: StoredFitObservation,
    series: Seq<Spend>,
    out: FitObservation,
)
    requires
        paired(reading, series, out),
    ensures
        out.evidence_id@ == reading.evidence_id@,
        out.at.nanos == reading.at.nanos,
        out.quota_used_ppm == reading.quota_used_ppm,
        out.reported_resolution_ppm == reading.reported_resolution_ppm,
        out.quantization == reading.quantization,
        out.cumulative_credits.micros == spent_by(series, reading.at, series.len() as int),
{
}

proof fn lemma_class_total_is_within(rows: Seq<StoredUsageEvent>, event: Seq<char>, kind: TokenKind)
    ensures
        class_total(rows, event, kind) <= grand_total(rows, kind),
    decreases rows.len(),
{
    if rows.len() > 0 {
        lemma_class_total_is_within(rows.drop_last(), event, kind);
    }
}

proof fn lemma_grand_total_of_first(rows: Seq<StoredUsageEvent>, kind: TokenKind, n: int)
    requires
        0 <= n <= rows.len(),
    ensures
        grand_total(rows.take(n), kind) <= grand_total(rows, kind),
    decreases rows.len(),
{
    if n < rows.len() {
        lemma_grand_total_of_first(rows.drop_last(), kind, n);
        assert(rows.drop_last().take(n) =~= rows.take(n));
    } else {
        assert(rows.take(n) =~= rows);
    }
}

/// Usage can be counted wherever all of its tokens together can, class by class.
pub proof fn law_usage_that_fits_is_countable(rows: Seq<StoredUsageEvent>)
    requires
        forall|kind: TokenKind| #[trigger] grand_total(rows, kind) <= u64::MAX,
    ensures
        countable(rows),
{
    law_the_first_unknown_class_is_named(rows);
    let n = known_rows(rows) as int;
    assert forall|event: Seq<char>, kind: TokenKind| #[trigger]
        class_total(rows.take(n), event, kind) <= u64::MAX by {
        lemma_class_total_is_within(rows.take(n), event, kind);
        lemma_grand_total_of_first(rows, kind, n);
        assert(grand_total(rows, kind) <= u64::MAX);
    }
}

proof fn lemma_spent_is_within(series: Seq<Spend>, at: UtcTimestamp, most: int, n: int)
    requires
        0 <= n <= series.len(),
        most >= 0,
        forall|i: int| 0 <= i < series.len() ==> 0 <= (#[trigger] series[i]).credits.micros <= most,
    ensures
        0 <= spent_by(series, at, n) <= most * n,
    decreases n,
{
    if n > 0 {
        lemma_spent_is_within(series, at, most, n - 1);
        assert(0 <= series[n - 1].credits.micros <= most);
        assert(most * n == most * (n - 1) + most) by (nonlinear_arith);
    }
}

/// Spend fits wherever no entry is negative and the greatest, as often as there are
/// entries, does.
pub proof fn law_spend_that_is_small_fits(series: Seq<Spend>, at: UtcTimestamp, most: int)
    requires
        0 <= most,
        most * series.len() <= i64::MAX,
        forall|i: int| 0 <= i < series.len() ==> 0 <= (#[trigger] series[i]).credits.micros <= most,
    ensures
        total_fits(series, at),
        0 <= spent_by(series, at, series.len() as int) <= most * series.len(),
{
    lemma_spent_is_within(series, at, most, series.len() as int);
    assert forall|n: int| 0 <= n <= series.len() implies i64::MIN <= #[trigger] spent_by(
        series,
        at,
        n,
    ) <= i64::MAX by {
        lemma_spent_is_within(series, at, most, n);
        assert(most * n <= most * series.len()) by (nonlinear_arith)
            requires
                0 <= most,
                0 <= n <= series.len(),
        ;
    }
}

/// An unknown class is refused under its own name.
pub proof fn law_unknown_classes_are_named(rows: Seq<StoredUsageEvent>)
    ensures
        all_known(rows) <==> forall|i: int|
            0 <= i < rows.len() ==> TokenKind::named((#[trigger] rows[i]).token_class@) is Some,
        !all_known(rows) ==> unknown_class_error(rows) == ErrorView::InsufficientEvidence(
            "unknown token class '"@ + rows[known_rows(rows) as int].token_class@
                + "' in usage event"@,
        ),
{
    law_the_first_unknown_class_is_named(rows);
}

} // verus!
