//! Scoping usage to the account of a controlled run.
//!
//! A run can only promise that nothing else spends its account. The machine behind it
//! runs other sessions on other accounts, and their tokens are not the run's. Usage
//! that no marker places on any account is left out too and reported, so that a run
//! whose own sessions lost their markers is visible.

use crate::attribution::{
    account_of_session, session_account, session_view, SessionMarkers,
};
use crate::calibration::contamination::ContaminationThresholds;
use crate::calibration::settlement::clamped;
use crate::calibration::usage::{
    aggregate_event_tokens, all_known, countable, folded, is_countable, unknown_class_error,
    EventTokens,
};
use crate::domain::UtcTimestamp;
use crate::error::Error;
use crate::order::{
    lemma_placed_by_insertion, lemma_stable_order, positions, stable_order, total_preorder,
};
use crate::records::{excluded_views, ExcludedSample, ExcludedView, StoredUsageEvent};
use crate::text::{
    comes_before, decimal, decimal_text, lemma_text_order_total, lemma_text_order_transitive,
    same_text, text_before,
};
use vstd::prelude::*;
use vstd::string::*;

verus! {

/// The session of a row.
pub open spec fn session_of(row: StoredUsageEvent) -> Option<(Seq<char>, Seq<char>)> {
    session_view(row.session)
}

/// Whether two rows belong to the same event of the same session.
pub open spec fn same_event(a: StoredUsageEvent, b: StoredUsageEvent) -> bool {
    session_of(a) == session_of(b) && a.canonical_event_id@ == b.canonical_event_id@
}

/// When the event of a row was recorded: as its last row says.
pub open spec fn recorded_at(rows: Seq<StoredUsageEvent>, row: StoredUsageEvent) -> UtcTimestamp
    decreases rows.len(),
{
    if rows.len() == 0 || same_event(rows.last(), row) {
        rows.last().timestamp
    } else {
        recorded_at(rows.drop_last(), row)
    }
}

/// The account that the markers place the event of a row on.
pub open spec fn placed_on(
    rows: Seq<StoredUsageEvent>,
    markers: Seq<SessionMarkers>,
    row: StoredUsageEvent,
) -> Option<Seq<char>> {
    session_account(markers, session_of(row), recorded_at(rows, row))
}

/// Whether an event is on an account: some row of it is placed there.
pub open spec fn on_account(
    rows: Seq<StoredUsageEvent>,
    markers: Seq<SessionMarkers>,
    account: Seq<char>,
    event: Seq<char>,
) -> bool {
    exists|k: int|
        0 <= k < rows.len() && (#[trigger] rows[k]).canonical_event_id@ == event && placed_on(
            rows,
            markers,
            rows[k],
        ) == Some(account)
}

/// Those of the first `n` rows whose event is on an account, in order.
pub open spec fn own_rows(
    rows: Seq<StoredUsageEvent>,
    markers: Seq<SessionMarkers>,
    account: Seq<char>,
    n: int,
) -> Seq<StoredUsageEvent>
    decreases n,
{
    if n <= 0 {
        Seq::empty()
    } else {
        let before = own_rows(rows, markers, account, n - 1);
        if on_account(rows, markers, account, rows[n - 1].canonical_event_id@) {
            before.push(rows[n - 1])
        } else {
            before
        }
    }
}

/// Whether no later row belongs to the same event of the same session.
pub open spec fn last_of_event(rows: Seq<StoredUsageEvent>, k: int) -> bool {
    forall|m: int| k < m < rows.len() ==> !same_event(#[trigger] rows[m], rows[k])
}

/// Whether no earlier row belongs to the same session.
pub open spec fn first_of_session(rows: Seq<StoredUsageEvent>, k: int) -> bool {
    forall|m: int| 0 <= m < k ==> session_of(#[trigger] rows[m]) != session_of(rows[k])
}

/// Whether a row stands for an event of a session that no marker places.
pub open spec fn unplaced_event(
    rows: Seq<StoredUsageEvent>,
    markers: Seq<SessionMarkers>,
    session: Option<(Seq<char>, Seq<char>)>,
    k: int,
) -> bool {
    session_of(rows[k]) == session && last_of_event(rows, k) && placed_on(
        rows,
        markers,
        rows[k],
    ) is None
}

/// How many events of a session no marker places, by the first `n` rows.
pub open spec fn unplaced_count(
    rows: Seq<StoredUsageEvent>,
    markers: Seq<SessionMarkers>,
    session: Option<(Seq<char>, Seq<char>)>,
    n: int,
) -> nat
    decreases n,
{
    if n <= 0 {
        0
    } else {
        unplaced_count(rows, markers, session, n - 1) + if unplaced_event(
            rows,
            markers,
            session,
            n - 1,
        ) {
            1nat
        } else {
            0nat
        }
    }
}

/// The order of sessions: usage without one first, then by source and native name.
pub open spec fn session_no_later(
    a: Option<(Seq<char>, Seq<char>)>,
    b: Option<(Seq<char>, Seq<char>)>,
) -> bool {
    match (a, b) {
        (None, _) => true,
        (Some(_), None) => false,
        (Some((source_a, native_a)), Some((source_b, native_b))) => text_before(source_a, source_b)
            || (source_a == source_b && !text_before(native_b, native_a)),
    }
}

/// The sessions of some rows in order, each by the position of its first row.
pub open spec fn session_order(rows: Seq<StoredUsageEvent>) -> Seq<int> {
    stable_order(
        rows.len(),
        |k: int| first_of_session(rows, k),
        |a: int, b: int| session_no_later(session_of(rows[a]), session_of(rows[b])),
    )
}

/// How a session is referred to.
pub open spec fn session_reference(session: Option<(Seq<char>, Seq<char>)>) -> Seq<char> {
    match session {
        Some((source, native)) => "session:"@ + source + "/"@ + native,
        None => "session:none"@,
    }
}

/// The reports of the first `n` sessions that have unplaced events.
pub open spec fn unattributed(
    rows: Seq<StoredUsageEvent>,
    markers: Seq<SessionMarkers>,
    n: int,
) -> Seq<ExcludedView>
    decreases n,
{
    if n <= 0 {
        Seq::empty()
    } else {
        let before = unattributed(rows, markers, n - 1);
        let session = session_of(rows[session_order(rows)[n - 1]]);
        let count = unplaced_count(rows, markers, session, rows.len() as int);
        if count > 0 {
            before.push(
                ExcludedView {
                    sample_ref: session_reference(session),
                    reason: "excluded: "@ + decimal(count)
                        + " usage events unattributed to any account by session markers"@,
                },
            )
        } else {
            before
        }
    }
}

fn same_session(a: &Option<(String, String)>, b: &Option<(String, String)>) -> (same: bool)
    ensures
        same == (session_view(*a) == session_view(*b)),
{
    match (a, b) {
        (None, None) => true,
        (Some(x), Some(y)) => same_text(x.0.as_str(), y.0.as_str()) && same_text(
            x.1.as_str(),
            y.1.as_str(),
        ),
        _ => false,
    }
}

fn belongs_together(a: &StoredUsageEvent, b: &StoredUsageEvent) -> (same: bool)
    ensures
        same == same_event(*a, *b),
{
    same_session(&a.session, &b.session) && same_text(
        a.canonical_event_id.as_str(),
        b.canonical_event_id.as_str(),
    )
}

fn is_no_later(a: &Option<(String, String)>, b: &Option<(String, String)>) -> (no_later: bool)
    ensures
        no_later == session_no_later(session_view(*a), session_view(*b)),
{
    match (a, b) {
        (None, _) => true,
        (Some(_), None) => false,
        (Some(x), Some(y)) => comes_before(x.0.as_str(), y.0.as_str()) || (same_text(
            x.0.as_str(),
            y.0.as_str(),
        ) && !comes_before(y.1.as_str(), x.1.as_str())),
    }
}

fn time_of(rows: &Vec<StoredUsageEvent>, k: usize) -> (at: UtcTimestamp)
    requires
        k < rows@.len(),
    ensures
        at == recorded_at(rows@, rows@[k as int]),
{
    let mut n: usize = rows.len();
    let ghost row = rows@[k as int];
    assert(rows@.take(n as int) =~= rows@);
    while n > k + 1 && !belongs_together(&rows[n - 1], &rows[k])
        invariant
            k < n <= rows@.len(),
            row == rows@[k as int],
            recorded_at(rows@, row) == recorded_at(rows@.take(n as int), row),
        ensures
            k < n <= rows@.len(),
            recorded_at(rows@, row) == recorded_at(rows@.take(n as int), row),
            same_event(rows@[n - 1], row),
        decreases n,
    {
        assert(rows@.take(n as int).drop_last() =~= rows@.take(n - 1));
        n = n - 1;
    }
    assert(rows@.take(n as int).last() == rows@[n - 1]);
    rows[n - 1].timestamp
}

fn owner_of<'a>(
    rows: &Vec<StoredUsageEvent>,
    markers: &'a Vec<SessionMarkers>,
    k: usize,
) -> (account: Option<&'a str>)
    requires
        k < rows@.len(),
    ensures
        match account {
            Some(name) => placed_on(rows@, markers@, rows@[k as int]) == Some(name@),
            None => placed_on(rows@, markers@, rows@[k as int]) is None,
        },
{
    account_of_session(markers, &rows[k].session, time_of(rows, k))
}

fn is_on_account(
    rows: &Vec<StoredUsageEvent>,
    markers: &Vec<SessionMarkers>,
    account: &str,
    event: &str,
) -> (kept: bool)
    ensures
        kept == on_account(rows@, markers@, account@, event@),
{
    let mut k: usize = 0;
    while k < rows.len()
        invariant
            k <= rows@.len(),
            forall|m: int|
                0 <= m < k ==> !((#[trigger] rows@[m]).canonical_event_id@ == event@ && placed_on(
                    rows@,
                    markers@,
                    rows@[m],
                ) == Some(account@)),
        decreases rows@.len() - k,
    {
        if same_text(rows[k].canonical_event_id.as_str(), event) {
            match owner_of(rows, markers, k) {
                Some(owner) => {
                    if same_text(owner, account) {
                        assert(placed_on(rows@, markers@, rows@[k as int]) == Some(account@));
                        return true;
                    }
                },
                None => {},
            }
        }
        k = k + 1;
    }
    false
}

fn is_last_of_event(rows: &Vec<StoredUsageEvent>, k: usize) -> (last: bool)
    requires
        k < rows@.len(),
    ensures
        last == last_of_event(rows@, k as int),
{
    let total: usize = rows.len();
    let mut m: usize = k + 1;
    while m < total
        invariant
            k < m <= total,
            total == rows@.len(),
            forall|j: int| k < j < m ==> !same_event(#[trigger] rows@[j], rows@[k as int]),
        decreases total - m,
    {
        if belongs_together(&rows[m], &rows[k]) {
            assert(same_event(rows@[m as int], rows@[k as int]));
            return false;
        }
        m = m + 1;
    }
    true
}

fn is_first_of_session(rows: &Vec<StoredUsageEvent>, k: usize) -> (first: bool)
    requires
        k < rows@.len(),
    ensures
        first == first_of_session(rows@, k as int),
{
    let mut m: usize = 0;
    while m < k
        invariant
            m <= k < rows@.len(),
            forall|j: int|
                0 <= j < m ==> session_of(#[trigger] rows@[j]) != session_of(rows@[k as int]),
        decreases k - m,
    {
        if same_session(&rows[m].session, &rows[k].session) {
            assert(session_of(rows@[m as int]) == session_of(rows@[k as int]));
            return false;
        }
        m = m + 1;
    }
    true
}

fn sessions_in_order(rows: &Vec<StoredUsageEvent>) -> (order: Vec<usize>)
    ensures
        positions(order@) == session_order(rows@),
        forall|k: int| 0 <= k < order@.len() ==> #[trigger] order@[k] < rows@.len(),
{
    let ghost keep = |k: int| first_of_session(rows@, k);
    let ghost leq = |a: int, b: int|
        session_no_later(session_of(rows@[a]), session_of(rows@[b]));
    let mut order: Vec<usize> = Vec::new();
    let mut i: usize = 0;
    assert(positions(order@) =~= Seq::empty());
    while i < rows.len()
        invariant
            i <= rows@.len(),
            keep == (|k: int| first_of_session(rows@, k)),
            leq == (|a: int, b: int|
                session_no_later(session_of(rows@[a]), session_of(rows@[b]))),
            positions(order@) == stable_order(i as nat, keep, leq),
            forall|k: int| 0 <= k < order@.len() ==> #[trigger] order@[k] < i,
        decreases rows@.len() - i,
    {
        if is_first_of_session(rows, i) {
            let mut slot: usize = order.len();
            while slot > 0 && !is_no_later(&rows[order[slot - 1]].session, &rows[i].session)
                invariant
                    slot <= order@.len(),
                    i < rows@.len(),
                    leq == (|a: int, b: int|
                        session_no_later(session_of(rows@[a]), session_of(rows@[b]))),
                    forall|k: int| 0 <= k < order@.len() ==> #[trigger] order@[k] < i,
                    forall|k: int|
                        slot <= k < order@.len() ==> !leq(
                            #[trigger] positions(order@)[k],
                            i as int,
                        ),
                decreases slot,
            {
                slot = slot - 1;
            }
            proof {
                lemma_placed_by_insertion(positions(order@), i as int, leq, slot as int);
                assert(positions(order@.insert(slot as int, i)) =~= positions(order@).insert(
                    slot as int,
                    i as int,
                ));
            }
            order.insert(slot, i);
        }
        i = i + 1;
    }
    order
}

fn count_unplaced(rows: &Vec<StoredUsageEvent>, markers: &Vec<SessionMarkers>, of: usize) -> (count:
    usize)
    requires
        of < rows@.len(),
    ensures
        count == unplaced_count(
            rows@,
            markers@,
            session_of(rows@[of as int]),
            rows@.len() as int,
        ),
{
    let ghost session = session_of(rows@[of as int]);
    let mut count: usize = 0;
    let mut k: usize = 0;
    while k < rows.len()
        invariant
            k <= rows@.len(),
            of < rows@.len(),
            session == session_of(rows@[of as int]),
            count <= k,
            count == unplaced_count(rows@, markers@, session, k as int),
        decreases rows@.len() - k,
    {
        if same_session(&rows[k].session, &rows[of].session) && is_last_of_event(rows, k)
            && owner_of(rows, markers, k).is_none() {
            count = count + 1;
        }
        k = k + 1;
    }
    count
}

fn reference_text(session: &Option<(String, String)>) -> (text: String)
    ensures
        text@ == session_reference(session_view(*session)),
        text@.len() > 0,
{
    proof {
        reveal_strlit("session:");
        reveal_strlit("session:none");
    }
    match session {
        Some(key) => {
            let mut text: String = "session:".to_owned();
            text.append(key.0.as_str());
            text.append("/");
            text.append(key.1.as_str());
            text
        },
        None => "session:none".to_owned(),
    }
}

/// Keeps the usage that the markers place on an account, and reports the sessions with
/// usage that they place nowhere.
pub fn retain_account_usage(
    usage: &Vec<StoredUsageEvent>,
    markers: &Vec<SessionMarkers>,
    account: &str,
) -> (scoped: (Vec<StoredUsageEvent>, Vec<ExcludedSample>))
    ensures
        scoped.0@ == own_rows(usage@, markers@, account@, usage@.len() as int),
        excluded_views(scoped.1@) == unattributed(
            usage@,
            markers@,
            session_order(usage@).len() as int,
        ),
{
    let mut own: Vec<StoredUsageEvent> = Vec::new();
    let mut i: usize = 0;
    while i < usage.len()
        invariant
            i <= usage@.len(),
            own@ == own_rows(usage@, markers@, account@, i as int),
        decreases usage@.len() - i,
    {
        if is_on_account(usage, markers, account, usage[i].canonical_event_id.as_str()) {
            own.push(usage[i].clone());
        }
        i = i + 1;
    }
    let order: Vec<usize> = sessions_in_order(usage);
    let mut samples: Vec<ExcludedSample> = Vec::new();
    let mut s: usize = 0;
    assert(excluded_views(samples@) =~= Seq::empty());
    proof {
        reveal_strlit("excluded: ");
    }
    while s < order.len()
        invariant
            s <= order@.len(),
            positions(order@) == session_order(usage@),
            forall|k: int| 0 <= k < order@.len() ==> #[trigger] order@[k] < usage@.len(),
            excluded_views(samples@) == unattributed(usage@, markers@, s as int),
            "excluded: "@.len() > 0,
        decreases order@.len() - s,
    {
        let first: usize = order[s];
        assert(session_order(usage@)[s as int] == first);
        let count: usize = count_unplaced(usage, markers, first);
        if count > 0 {
            let mut reason: String = "excluded: ".to_owned();
            reason.append(decimal_text(count as u128).as_str());
            reason.append(" usage events unattributed to any account by session markers");
            let reference: String = reference_text(&usage[first].session);
            let ghost before = samples@;
            match ExcludedSample::new(reference.as_str(), reason.as_str()) {
                Some(sample) => {
                    samples.push(sample);
                    assert(excluded_views(samples@) =~= excluded_views(before).push(sample@));
                },
                None => {},
            }
        }
        s = s + 1;
    }
    assert(positions(order@).len() == order@.len());
    (own, samples)
}

/// Folds the usage that the markers place on an account into one token vector per event.
/// A row of an unknown class is refused rather than dropped. There is no result where a
/// count of tokens is too large to hold.
///
/// The fit of one coefficient and its promotion price what this gives, so they price the
/// account whose blocks a joint fit is made of.
pub fn account_event_tokens(
    usage: &Vec<StoredUsageEvent>,
    markers: &Vec<SessionMarkers>,
    account: &str,
) -> (entries: Option<Result<Vec<EventTokens>, Error>>)
    ensures
        ({
            let own = own_rows(usage@, markers@, account@, usage@.len() as int);
            match entries {
                Some(Ok(list)) => all_known(own) && folded(own, list@),
                Some(Err(error)) => !all_known(own) && error@ == unknown_class_error(own),
                None => !countable(own),
            }
        }),
{
    let (own, _) = retain_account_usage(usage, markers, account);
    if is_countable(&own) {
        Some(aggregate_event_tokens(&own))
    } else {
        None
    }
}

/// When the settlement grace after the end of work runs out.
pub open spec fn grace_end(ended_at: UtcTimestamp, thresholds: ContaminationThresholds) -> UtcTimestamp {
    UtcTimestamp { nanos: clamped(ended_at.nanos + clamped(thresholds.grace().nanos as int)) }
}

/// When the settlement grace after the end of work runs out.
pub fn settlement_grace_end(ended_at: UtcTimestamp, thresholds: &ContaminationThresholds) -> (end:
    UtcTimestamp)
    ensures
        end == grace_end(ended_at, *thresholds),
{
    let grace: u64 = thresholds.post_settlement_grace().as_nanos();
    let grace_nanos: i128 = if grace > i64::MAX as u64 {
        i64::MAX as i128
    } else {
        grace as i128
    };
    let sum: i128 = ended_at.unix_nanos() as i128 + grace_nanos;
    if sum > i64::MAX as i128 {
        UtcTimestamp::from_unix_nanos(i64::MAX)
    } else {
        UtcTimestamp::from_unix_nanos(sum as i64)
    }
}

/// The earliest of some rows.
pub open spec fn earliest_row(rows: Seq<StoredUsageEvent>) -> Option<UtcTimestamp>
    decreases rows.len(),
{
    if rows.len() == 0 {
        None
    } else {
        match earliest_row(rows.drop_last()) {
            Some(at) => if rows.last().timestamp.nanos < at.nanos {
                Some(rows.last().timestamp)
            } else {
                Some(at)
            },
            None => Some(rows.last().timestamp),
        }
    }
}

/// The rows after a moment, in order.
pub open spec fn rows_after(rows: Seq<StoredUsageEvent>, at: UtcTimestamp) -> Seq<StoredUsageEvent>
    decreases rows.len(),
{
    if rows.len() == 0 {
        Seq::empty()
    } else {
        let before = rows_after(rows.drop_last(), at);
        if rows.last().timestamp.nanos > at.nanos {
            before.push(rows.last())
        } else {
            before
        }
    }
}

/// The last moment at which a reading still measures a run: the end of the grace, or
/// the moment before the account is first used again after the end of work.
pub open spec fn measured_until(
    usage: Seq<StoredUsageEvent>,
    markers: Seq<SessionMarkers>,
    account: Seq<char>,
    ended_at: UtcTimestamp,
    thresholds: ContaminationThresholds,
) -> UtcTimestamp {
    let after = rows_after(usage, ended_at);
    match earliest_row(own_rows(after, markers, account, after.len() as int)) {
        Some(first) => UtcTimestamp { nanos: clamped(first.nanos - 1) },
        None => grace_end(ended_at, thresholds),
    }
}

/// Bounds the readings that still measure a run. Usage that no marker places on any
/// account does not cut the bound short.
pub fn settlement_bound(
    usage: &Vec<StoredUsageEvent>,
    markers: &Vec<SessionMarkers>,
    account: &str,
    ended_at: UtcTimestamp,
    thresholds: &ContaminationThresholds,
) -> (until: UtcTimestamp)
    ensures
        until == measured_until(usage@, markers@, account@, ended_at, *thresholds),
{
    let mut after: Vec<StoredUsageEvent> = Vec::new();
    let mut i: usize = 0;
    assert(usage@.take(0) =~= Seq::empty());
    while i < usage.len()
        invariant
            i <= usage@.len(),
            after@ == rows_after(usage@.take(i as int), ended_at),
        decreases usage@.len() - i,
    {
        assert(usage@.take(i + 1).drop_last() =~= usage@.take(i as int));
        if usage[i].timestamp.unix_nanos() > ended_at.unix_nanos() {
            after.push(usage[i].clone());
        }
        i = i + 1;
    }
    assert(usage@.take(usage@.len() as int) =~= usage@);
    let own: Vec<StoredUsageEvent> = retain_account_usage(&after, markers, account).0;
    let mut first: Option<UtcTimestamp> = None;
    let mut k: usize = 0;
    assert(own@.take(0) =~= Seq::empty());
    while k < own.len()
        invariant
            k <= own@.len(),
            first == earliest_row(own@.take(k as int)),
        decreases own@.len() - k,
    {
        assert(own@.take(k + 1).drop_last() =~= own@.take(k as int));
        let at: UtcTimestamp = own[k].timestamp;
        match first {
            Some(earlier) => {
                if at.unix_nanos() < earlier.unix_nanos() {
                    first = Some(at);
                }
            },
            None => {
                first = Some(at);
            },
        }
        k = k + 1;
    }
    assert(own@.take(own@.len() as int) =~= own@);
    match first {
        Some(at) => if at.unix_nanos() == i64::MIN {
            at
        } else {
            UtcTimestamp::from_unix_nanos(at.unix_nanos() - 1)
        },
        None => settlement_grace_end(ended_at, thresholds),
    }
}

/// Everything kept is given usage on the account, nothing on it is dropped, and the
/// order is kept.
pub proof fn law_only_own_usage_is_kept(
    rows: Seq<StoredUsageEvent>,
    markers: Seq<SessionMarkers>,
    account: Seq<char>,
    n: int,
)
    requires
        0 <= n <= rows.len(),
    ensures
        forall|i: int|
            0 <= i < own_rows(rows, markers, account, n).len() ==> on_account(
                rows,
                markers,
                account,
                (#[trigger] own_rows(rows, markers, account, n)[i]).canonical_event_id@,
            ),
        forall|k: int|
            0 <= k < n && on_account(
                rows,
                markers,
                account,
                (#[trigger] rows[k]).canonical_event_id@,
            ) ==> own_rows(rows, markers, account, n).contains(rows[k]),
        own_rows(rows, markers, account, n).len() <= n,
    decreases n,
{
    if n > 0 {
        law_only_own_usage_is_kept(rows, markers, account, n - 1);
        let before = own_rows(rows, markers, account, n - 1);
        let after = own_rows(rows, markers, account, n);
        assert forall|i: int| 0 <= i < after.len() implies on_account(
            rows,
            markers,
            account,
            (#[trigger] after[i]).canonical_event_id@,
        ) by {
            if i < before.len() {
                assert(after[i] == before[i]);
            }
        }
        assert forall|k: int|
            0 <= k < n && on_account(
                rows,
                markers,
                account,
                (#[trigger] rows[k]).canonical_event_id@,
            ) implies after.contains(rows[k]) by {
            if k < n - 1 {
                assert(before.contains(rows[k]));
                let j = choose|j: int| 0 <= j < before.len() && before[j] == rows[k];
                assert(after[j] == rows[k]);
            } else {
                assert(after[before.len() as int] == rows[k]);
            }
        }
    }
}

/// Usage after the end of work on the run's own account always cuts the bound to before
/// it, and the bound never reaches past the grace where no such usage is given.
pub proof fn law_own_usage_cuts_the_bound(
    usage: Seq<StoredUsageEvent>,
    markers: Seq<SessionMarkers>,
    account: Seq<char>,
    ended_at: UtcTimestamp,
    thresholds: ContaminationThresholds,
    i: int,
)
    requires
        ({
            let after = rows_after(usage, ended_at);
            let own = own_rows(after, markers, account, after.len() as int);
            0 <= i < own.len() && own[i].timestamp.nanos > i64::MIN
        }),
    ensures
        ({
            let after = rows_after(usage, ended_at);
            let own = own_rows(after, markers, account, after.len() as int);
            measured_until(usage, markers, account, ended_at, thresholds).nanos
                < own[i].timestamp.nanos
        }),
{
    let after = rows_after(usage, ended_at);
    let own = own_rows(after, markers, account, after.len() as int);
    lemma_earliest_row(own, i);
}

proof fn lemma_earliest_row(rows: Seq<StoredUsageEvent>, i: int)
    requires
        0 <= i < rows.len(),
    ensures
        earliest_row(rows) is Some,
        earliest_row(rows)->0.nanos <= rows[i].timestamp.nanos,
    decreases rows.len(),
{
    if i < rows.len() - 1 {
        lemma_earliest_row(rows.drop_last(), i);
    } else if rows.len() > 1 {
        lemma_earliest_row(rows.drop_last(), 0);
    }
}

/// The last row of the event that a row belongs to.
proof fn lemma_last_row(rows: Seq<StoredUsageEvent>, row: StoredUsageEvent, k: int) -> (last: int)
    requires
        0 <= k < rows.len(),
        same_event(rows[k], row),
    ensures
        k <= last < rows.len(),
        same_event(rows[last], row),
        last_of_event(rows, last),
        recorded_at(rows, row) == rows[last].timestamp,
    decreases rows.len(),
{
    let n = rows.len() - 1;
    if same_event(rows.last(), row) {
        n
    } else {
        let shorter = rows.drop_last();
        assert(shorter[k] == rows[k]);
        let last = lemma_last_row(shorter, row, k);
        assert forall|m: int| last < m < rows.len() implies !same_event(
            #[trigger] rows[m],
            rows[last],
        ) by {
            if m < n {
                assert(shorter[m] == rows[m]);
            }
        }
        last
    }
}

/// A row is on the account that the markers of its session put it on at the moment of the
/// last row of its event.
pub proof fn law_a_row_is_placed_by_its_last_moment(
    rows: Seq<StoredUsageEvent>,
    markers: Seq<SessionMarkers>,
    k: int,
) -> (last: int)
    requires
        0 <= k < rows.len(),
    ensures
        k <= last < rows.len(),
        rows[last].canonical_event_id@ == rows[k].canonical_event_id@,
        session_view(rows[last].session) == session_view(rows[k].session),
        forall|m: int|
            last < m < rows.len() ==> (#[trigger] rows[m]).canonical_event_id@
                != rows[k].canonical_event_id@ || session_view(rows[m].session) != session_view(
                rows[k].session,
            ),
        placed_on(rows, markers, rows[k]) == session_account(
            markers,
            session_view(rows[k].session),
            rows[last].timestamp,
        ),
{
    let last = lemma_last_row(rows, rows[k], k);
    assert forall|m: int| last < m < rows.len() implies (#[trigger] rows[m]).canonical_event_id@
        != rows[k].canonical_event_id@ || session_view(rows[m].session) != session_view(
        rows[k].session,
    ) by {
        assert(!same_event(rows[m], rows[last]));
    }
    last
}

/// Whole events are kept, in the order of their rows: a row is kept exactly where some row
/// of its event is placed on the account.
pub proof fn law_whole_events_are_kept(
    rows: Seq<StoredUsageEvent>,
    markers: Seq<SessionMarkers>,
    account: Seq<char>,
    n: int,
)
    requires
        0 <= n < rows.len(),
    ensures
        own_rows(rows, markers, account, 0).len() == 0,
        own_rows(rows, markers, account, n + 1) == if exists|k: int|
            0 <= k < rows.len() && (#[trigger] rows[k]).canonical_event_id@
                == rows[n].canonical_event_id@ && placed_on(rows, markers, rows[k]) == Some(
                account,
            ) {
            own_rows(rows, markers, account, n).push(rows[n])
        } else {
            own_rows(rows, markers, account, n)
        },
{
}

/// The identifiers of the events of a session, among the first rows, that no marker places
/// on an account.
spec fn unplaced_ids(
    rows: Seq<StoredUsageEvent>,
    markers: Seq<SessionMarkers>,
    session: Option<(Seq<char>, Seq<char>)>,
    n: int,
) -> Set<Seq<char>>
    decreases n,
{
    if n <= 0 {
        Set::empty()
    } else if unplaced_event(rows, markers, session, n - 1) {
        unplaced_ids(rows, markers, session, n - 1).insert(rows[n - 1].canonical_event_id@)
    } else {
        unplaced_ids(rows, markers, session, n - 1)
    }
}

proof fn lemma_unplaced_ids(
    rows: Seq<StoredUsageEvent>,
    markers: Seq<SessionMarkers>,
    session: Option<(Seq<char>, Seq<char>)>,
    n: int,
)
    requires
        0 <= n <= rows.len(),
    ensures
        unplaced_ids(rows, markers, session, n).finite(),
        unplaced_ids(rows, markers, session, n).len() == unplaced_count(rows, markers, session, n),
        forall|id: Seq<char>| #[trigger]
            unplaced_ids(rows, markers, session, n).contains(id) <==> exists|k: int|
                0 <= k < n && (#[trigger] rows[k]).canonical_event_id@ == id && unplaced_event(
                    rows,
                    markers,
                    session,
                    k,
                ),
    decreases n,
{
    if n > 0 {
        lemma_unplaced_ids(rows, markers, session, n - 1);
        let before = unplaced_ids(rows, markers, session, n - 1);
        let id = rows[n - 1].canonical_event_id@;
        if unplaced_event(rows, markers, session, n - 1) {
            if before.contains(id) {
                let k = choose|k: int|
                    0 <= k < n - 1 && (#[trigger] rows[k]).canonical_event_id@ == id
                        && unplaced_event(rows, markers, session, k);
                assert(!same_event(rows[n - 1], rows[k]));
            }
        }
        assert forall|x: Seq<char>| #[trigger]
            unplaced_ids(rows, markers, session, n).contains(x) <==> exists|k: int|
                0 <= k < n && (#[trigger] rows[k]).canonical_event_id@ == x && unplaced_event(
                    rows,
                    markers,
                    session,
                    k,
                ) by {
            if before.contains(x) {
                let k = choose|k: int|
                    0 <= k < n - 1 && (#[trigger] rows[k]).canonical_event_id@ == x
                        && unplaced_event(rows, markers, session, k);
                assert(rows[k].canonical_event_id@ == x);
            }
            if unplaced_event(rows, markers, session, n - 1) && x == id {
                assert(rows[n - 1].canonical_event_id@ == x);
            }
            if exists|k: int|
                0 <= k < n && (#[trigger] rows[k]).canonical_event_id@ == x && unplaced_event(
                    rows,
                    markers,
                    session,
                    k,
                ) {
                let k = choose|k: int|
                    0 <= k < n && (#[trigger] rows[k]).canonical_event_id@ == x && unplaced_event(
                        rows,
                        markers,
                        session,
                        k,
                    );
                if k < n - 1 {
                    assert(before.contains(x));
                }
            }
        }
    }
}

/// The events of a session that no marker places on an account are counted once each.
pub proof fn law_unplaced_events_are_counted(
    rows: Seq<StoredUsageEvent>,
    markers: Seq<SessionMarkers>,
    session: Option<(Seq<char>, Seq<char>)>,
) -> (ids: Set<Seq<char>>)
    ensures
        ids.finite(),
        ids.len() == unplaced_count(rows, markers, session, rows.len() as int),
        forall|id: Seq<char>| #[trigger]
            ids.contains(id) <==> exists|k: int|
                0 <= k < rows.len() && (#[trigger] rows[k]).canonical_event_id@ == id
                    && session_view(rows[k].session) == session && placed_on(
                    rows,
                    markers,
                    rows[k],
                ) is None,
{
    let n = rows.len() as int;
    let ids = unplaced_ids(rows, markers, session, n);
    lemma_unplaced_ids(rows, markers, session, n);
    assert forall|id: Seq<char>| #[trigger]
        ids.contains(id) <==> exists|k: int|
            0 <= k < rows.len() && (#[trigger] rows[k]).canonical_event_id@ == id && session_view(
                rows[k].session,
            ) == session && placed_on(rows, markers, rows[k]) is None by {
        if ids.contains(id) {
            let k = choose|k: int|
                0 <= k < n && (#[trigger] rows[k]).canonical_event_id@ == id && unplaced_event(
                    rows,
                    markers,
                    session,
                    k,
                );
            assert(session_view(rows[k].session) == session);
        }
        if exists|k: int|
            0 <= k < rows.len() && (#[trigger] rows[k]).canonical_event_id@ == id && session_view(
                rows[k].session,
            ) == session && placed_on(rows, markers, rows[k]) is None {
            let k = choose|k: int|
                0 <= k < rows.len() && (#[trigger] rows[k]).canonical_event_id@ == id
                    && session_view(rows[k].session) == session && placed_on(
                    rows,
                    markers,
                    rows[k],
                ) is None;
            let last = lemma_last_row(rows, rows[k], k);
            let other = lemma_last_row(rows, rows[last], last);
            if other != last {
                assert(!same_event(rows[other], rows[last]));
            }
            assert(rows[last].canonical_event_id@ == id);
            assert(unplaced_event(rows, markers, session, last));
        }
    }
    ids
}

proof fn lemma_session_order(rows: Seq<StoredUsageEvent>)
    ensures
        session_order(rows).no_duplicates(),
        forall|k: int| #[trigger]
            session_order(rows).contains(k) <==> (0 <= k < rows.len() && first_of_session(
                rows,
                k,
            )),
        forall|i: int, j: int|
            #![trigger session_order(rows)[i], session_order(rows)[j]]
            0 <= i < j < session_order(rows).len() ==> session_no_later(
                session_of(rows[session_order(rows)[i]]),
                session_of(rows[session_order(rows)[j]]),
            ),
{
    let keep = |k: int| first_of_session(rows, k);
    let leq = |a: int, b: int| session_no_later(session_of(rows[a]), session_of(rows[b]));
    assert(total_preorder(leq)) by {
        assert forall|a: int, b: int| #[trigger] leq(a, b) || leq(b, a) by {
            match (session_of(rows[a]), session_of(rows[b])) {
                (Some((s, n)), Some((t, m))) => {
                    lemma_text_order_total(s, t);
                    lemma_text_order_total(n, m);
                },
                _ => {},
            }
        }
        assert forall|a: int, b: int, c: int| #[trigger] leq(a, b) && #[trigger] leq(
            b,
            c,
        ) implies leq(a, c) by {
            match (session_of(rows[a]), session_of(rows[b]), session_of(rows[c])) {
                (Some((s, n)), Some((t, m)), Some((u, o))) => {
                    if text_before(s, t) && text_before(t, u) {
                        lemma_text_order_transitive(s, t, u);
                    }
                    lemma_text_order_total(n, m);
                    lemma_text_order_total(m, o);
                    lemma_text_order_total(n, o);
                    if s == t && t == u && text_before(o, n) && text_before(n, m) {
                        lemma_text_order_transitive(o, n, m);
                    }
                    lemma_text_order_total(s, s);
                    lemma_text_order_total(t, t);
                },
                _ => {},
            }
        }
    }
    lemma_stable_order(rows.len(), keep, leq);
    let order = session_order(rows);
    assert forall|i: int, j: int|
        #![trigger order[i], order[j]]
        0 <= i < j < order.len() implies session_no_later(
        session_of(rows[order[i]]),
        session_of(rows[order[j]]),
    ) by {
        assert(leq(order[i], order[j]));
    }
}

proof fn lemma_first_row_of_session(rows: Seq<StoredUsageEvent>, k: int) -> (first: int)
    requires
        0 <= k < rows.len(),
    ensures
        0 <= first <= k,
        session_of(rows[first]) == session_of(rows[k]),
        first_of_session(rows, first),
    decreases k,
{
    if first_of_session(rows, k) {
        k
    } else {
        let m = choose|m: int| 0 <= m < k && session_of(#[trigger] rows[m]) == session_of(rows[k]);
        lemma_first_row_of_session(rows, m)
    }
}

/// The rows, one of each session, that stand behind what is reported as unattributed.
proof fn lemma_unattributed(
    rows: Seq<StoredUsageEvent>,
    markers: Seq<SessionMarkers>,
    n: int,
) -> (at: Seq<int>)
    requires
        0 <= n <= session_order(rows).len(),
    ensures
        at.len() == unattributed(rows, markers, n).len(),
        forall|e: int|
            0 <= e < at.len() ==> 0 <= #[trigger] at[e] < n && ({
                let session = session_of(rows[session_order(rows)[at[e]]]);
                let count = unplaced_count(rows, markers, session, rows.len() as int);
                &&& count > 0
                &&& unattributed(rows, markers, n)[e].sample_ref == session_reference(session)
                &&& unattributed(rows, markers, n)[e].reason == "excluded: "@ + decimal(count)
                    + " usage events unattributed to any account by session markers"@
            }),
        forall|e: int, f: int|
            #![trigger at[e], at[f]]
            0 <= e < f < at.len() ==> at[e] < at[f],
        forall|p: int|
            0 <= p < n && unplaced_count(
                rows,
                markers,
                session_of(rows[#[trigger] session_order(rows)[p]]),
                rows.len() as int,
            ) > 0 ==> at.contains(p),
    decreases n,
{
    if n <= 0 {
        Seq::empty()
    } else {
        let before = lemma_unattributed(rows, markers, n - 1);
        let session = session_of(rows[session_order(rows)[n - 1]]);
        if unplaced_count(rows, markers, session, rows.len() as int) > 0 {
            let at = before.push(n - 1);
            assert forall|p: int|
                0 <= p < n && unplaced_count(
                    rows,
                    markers,
                    session_of(rows[#[trigger] session_order(rows)[p]]),
                    rows.len() as int,
                ) > 0 implies at.contains(p) by {
                if p < n - 1 {
                    assert(before.contains(p));
                    let e = choose|e: int| 0 <= e < before.len() && before[e] == p;
                    assert(at[e] == p);
                } else {
                    assert(at[before.len() as int] == p);
                }
            }
            at
        } else {
            before
        }
    }
}

/// Usage that no marker places on an account is reported, session by session, those
/// without one first and the others by source and native identifier: every session with an
/// unplaced row is named once, with the number of its unplaced events, and no other is.
pub proof fn law_unattributed_usage_is_reported(
    rows: Seq<StoredUsageEvent>,
    markers: Seq<SessionMarkers>,
) -> (of: Seq<int>)
    ensures
        ({
            let reported = unattributed(rows, markers, session_order(rows).len() as int);
            &&& of.len() == reported.len()
            &&& forall|e: int|
                0 <= e < of.len() ==> 0 <= #[trigger] of[e] < rows.len() && reported[e].sample_ref
                    == match rows[of[e]].session {
                    Some((source, native)) => "session:"@ + source@ + "/"@ + native@,
                    None => "session:none"@,
                } && reported[e].reason == "excluded: "@ + decimal(
                    unplaced_count(
                        rows,
                        markers,
                        session_view(rows[of[e]].session),
                        rows.len() as int,
                    ),
                ) + " usage events unattributed to any account by session markers"@
                    && unplaced_count(
                    rows,
                    markers,
                    session_view(rows[of[e]].session),
                    rows.len() as int,
                ) > 0
            &&& forall|k: int|
                0 <= k < rows.len() && placed_on(rows, markers, #[trigger] rows[k]) is None
                    ==> exists|e: int|
                    0 <= e < of.len() && session_view(rows[#[trigger] of[e]].session)
                        == session_view(rows[k].session)
            &&& forall|e: int, f: int|
                #![trigger of[e], of[f]]
                0 <= e < f < of.len() ==> match (
                    session_view(rows[of[e]].session),
                    session_view(rows[of[f]].session),
                ) {
                    (None, Some(_)) => true,
                    (Some((s, n)), Some((t, m))) => text_before(s, t) || (s == t && text_before(
                        n,
                        m,
                    )),
                    _ => false,
                }
        }),
{
    let order = session_order(rows);
    let n = order.len() as int;
    lemma_session_order(rows);
    let at = lemma_unattributed(rows, markers, n);
    let of = Seq::new(at.len(), |e: int| order[at[e]]);
    assert forall|p: int| 0 <= p < n implies 0 <= #[trigger] order[p] < rows.len()
        && first_of_session(rows, order[p]) by {
        assert(order.contains(order[p]));
    }
    assert forall|k: int|
        0 <= k < rows.len() && placed_on(rows, markers, #[trigger] rows[k]) is None implies exists|
        e: int,
    |
        0 <= e < of.len() && session_view(rows[#[trigger] of[e]].session) == session_view(
            rows[k].session,
        ) by {
        let session = session_of(rows[k]);
        let ids = law_unplaced_events_are_counted(rows, markers, session);
        assert(ids.contains(rows[k].canonical_event_id@));
        if ids.len() == 0 {
            assert(ids =~= Set::empty());
        }
        let first = lemma_first_row_of_session(rows, k);
        assert(order.contains(first));
        let p = choose|p: int| 0 <= p < order.len() && order[p] == first;
        assert(at.contains(p));
        let e = choose|e: int| 0 <= e < at.len() && at[e] == p;
        assert(of[e] == first);
    }
    assert forall|e: int, f: int|
        #![trigger of[e], of[f]]
        0 <= e < f < of.len() implies match (
        session_view(rows[of[e]].session),
        session_view(rows[of[f]].session),
    ) {
        (None, Some(_)) => true,
        (Some((s, n)), Some((t, m))) => text_before(s, t) || (s == t && text_before(n, m)),
        _ => false,
    } by {
        let a = order[at[e]];
        let b = order[at[f]];
        assert(at[e] < at[f]);
        assert(session_no_later(session_of(rows[a]), session_of(rows[b])));
        assert(a != b);
        if a < b {
            assert(session_of(rows[a]) != session_of(rows[b]));
        } else {
            assert(session_of(rows[b]) != session_of(rows[a]));
        }
        match (session_of(rows[a]), session_of(rows[b])) {
            (Some((s, n)), Some((t, m))) => {
                lemma_text_order_total(n, m);
            },
            _ => {},
        }
    }
    of
}

/// The grace after a run ends as much later as the thresholds say, as far as a timestamp
/// holds it.
pub proof fn law_the_grace_ends_as_much_later(
    ended_at: UtcTimestamp,
    thresholds: ContaminationThresholds,
)
    requires
        thresholds.grace().nanos <= i64::MAX,
    ensures
        grace_end(ended_at, thresholds).nanos == if ended_at.nanos + thresholds.grace().nanos
            > i64::MAX {
            i64::MAX as int
        } else {
            ended_at.nanos + thresholds.grace().nanos
        },
{
}

/// The rows after a moment are those later than it, in their order.
pub proof fn law_rows_after_a_moment_are_later(
    rows: Seq<StoredUsageEvent>,
    last: StoredUsageEvent,
    at: UtcTimestamp,
)
    ensures
        rows_after(Seq::empty(), at).len() == 0,
        rows_after(rows.push(last), at) == if last.timestamp.nanos > at.nanos {
            rows_after(rows, at).push(last)
        } else {
            rows_after(rows, at)
        },
{
    assert(rows.push(last).drop_last() =~= rows);
}

proof fn lemma_earliest_row_is_one(rows: Seq<StoredUsageEvent>) -> (first: int)
    requires
        rows.len() > 0,
    ensures
        0 <= first < rows.len(),
        earliest_row(rows) == Some(rows[first].timestamp),
        forall|i: int|
            0 <= i < rows.len() ==> rows[first].timestamp.nanos <= (
            #[trigger] rows[i]).timestamp.nanos,
    decreases rows.len(),
{
    let n = rows.len() - 1;
    let shorter = rows.drop_last();
    if n == 0 {
        assert(earliest_row(shorter) is None);
        0
    } else {
        let before = lemma_earliest_row_is_one(shorter);
        assert forall|i: int| 0 <= i < n implies shorter[before].timestamp.nanos <= (
        #[trigger] rows[i]).timestamp.nanos by {
            assert(shorter[i] == rows[i]);
        }
        if rows[n].timestamp.nanos < shorter[before].timestamp.nanos {
            n
        } else {
            before
        }
    }
}

/// A run is measured until one moment before its account is next used after it ended, and
/// until the grace ends where it is not.
pub proof fn law_a_run_is_measured_until_its_account_is_used(
    usage: Seq<StoredUsageEvent>,
    markers: Seq<SessionMarkers>,
    account: Seq<char>,
    ended_at: UtcTimestamp,
    thresholds: ContaminationThresholds,
)
    ensures
        ({
            let after = rows_after(usage, ended_at);
            let own = own_rows(after, markers, account, after.len() as int);
            let until = measured_until(usage, markers, account, ended_at, thresholds);
            if own.len() == 0 {
                until == grace_end(ended_at, thresholds)
            } else {
                &&& forall|i: int|
                    0 <= i < own.len() && (#[trigger] own[i]).timestamp.nanos > i64::MIN
                        ==> until.nanos < own[i].timestamp.nanos
                &&& exists|i: int|
                    0 <= i < own.len() && ((#[trigger] own[i]).timestamp.nanos == until.nanos + 1
                        || own[i].timestamp.nanos == i64::MIN == until.nanos)
            }
        }),
{
    let after = rows_after(usage, ended_at);
    let own = own_rows(after, markers, account, after.len() as int);
    if own.len() > 0 {
        let first = lemma_earliest_row_is_one(own);
        assert(own[first].timestamp.nanos >= i64::MIN);
    }
}

} // verus!
