//! Which account a session's usage belongs to, as its markers say.

use crate::domain::UtcTimestamp;
use crate::text::same_text;
use vstd::prelude::*;

verus! {

/// From when on a session runs on an account.
#[derive(Debug, Clone, PartialEq, Eq)]
pub struct AccountMarkerBoundary {
    pub account: String,
    pub observed_at: UtcTimestamp,
}

impl AccountMarkerBoundary {
    pub fn new(account: &str, observed_at: UtcTimestamp) -> (boundary: Self)
        ensures
            boundary.account@ == account@,
            boundary.observed_at == observed_at,
    {
        AccountMarkerBoundary { account: account.to_owned(), observed_at }
    }
}

/// The markers of one session.
#[derive(Debug, Clone, PartialEq, Eq)]
pub struct SessionMarkers {
    pub source: String,
    pub native: String,
    pub boundaries: Vec<AccountMarkerBoundary>,
}

/// The boundary in force at a moment: the latest that is not after it, and of several at
/// the same moment the last. Before the first boundary there is none.
pub open spec fn in_force(
    boundaries: Seq<AccountMarkerBoundary>,
    at: UtcTimestamp,
) -> Option<AccountMarkerBoundary>
    decreases boundaries.len(),
{
    if boundaries.len() == 0 {
        None
    } else {
        let before = in_force(boundaries.drop_last(), at);
        let last = boundaries.last();
        if last.observed_at.nanos > at.nanos || (before is Some && before->0.observed_at.nanos
            > last.observed_at.nanos) {
            before
        } else {
            Some(last)
        }
    }
}

/// The account in force at a moment.
pub open spec fn account_at(
    boundaries: Seq<AccountMarkerBoundary>,
    at: UtcTimestamp,
) -> Option<Seq<char>> {
    match in_force(boundaries, at) {
        Some(boundary) => Some(boundary.account@),
        None => None,
    }
}

/// The account in force at a moment.
pub fn account_in_force(boundaries: &Vec<AccountMarkerBoundary>, at: UtcTimestamp) -> (account: Option<
    &str,
>)
    ensures
        match account {
            Some(name) => account_at(boundaries@, at) == Some(name@),
            None => account_at(boundaries@, at) is None,
        },
{
    let mut found: Option<usize> = None;
    let mut i: usize = 0;
    assert(boundaries@.take(0) =~= Seq::empty());
    while i < boundaries.len()
        invariant
            i <= boundaries@.len(),
            match found {
                Some(k) => k < i && in_force(boundaries@.take(i as int), at) == Some(
                    boundaries@[k as int],
                ),
                None => in_force(boundaries@.take(i as int), at) is None,
            },
        decreases boundaries@.len() - i,
    {
        assert(boundaries@.take(i + 1).drop_last() =~= boundaries@.take(i as int));
        let observed: i64 = boundaries[i].observed_at.unix_nanos();
        if observed <= at.unix_nanos() {
            match found {
                Some(k) => {
                    if boundaries[k].observed_at.unix_nanos() <= observed {
                        found = Some(i);
                    }
                },
                None => {
                    found = Some(i);
                },
            }
        }
        i = i + 1;
    }
    assert(boundaries@.take(boundaries@.len() as int) =~= boundaries@);
    match found {
        Some(k) => Some(boundaries[k].account.as_str()),
        None => None,
    }
}

/// The boundaries of a session, where it has markers.
pub open spec fn boundaries_of(
    markers: Seq<SessionMarkers>,
    source: Seq<char>,
    native: Seq<char>,
) -> Seq<AccountMarkerBoundary>
    decreases markers.len(),
{
    if markers.len() == 0 {
        Seq::empty()
    } else if markers[0].source@ == source && markers[0].native@ == native {
        markers[0].boundaries@
    } else {
        boundaries_of(markers.drop_first(), source, native)
    }
}

/// The account a session runs on at a moment; unknown without a session or a marker.
pub open spec fn session_account(
    markers: Seq<SessionMarkers>,
    session: Option<(Seq<char>, Seq<char>)>,
    at: UtcTimestamp,
) -> Option<Seq<char>> {
    match session {
        Some((source, native)) => account_at(boundaries_of(markers, source, native), at),
        None => None,
    }
}

/// A session key by what it says.
pub open spec fn session_view(session: Option<(String, String)>) -> Option<(Seq<char>, Seq<char>)> {
    match session {
        Some((source, native)) => Some((source@, native@)),
        None => None,
    }
}

/// The account a session runs on at a moment; unknown without a session or a marker.
pub fn account_of_session<'a>(
    markers: &'a Vec<SessionMarkers>,
    session: &Option<(String, String)>,
    at: UtcTimestamp,
) -> (account: Option<&'a str>)
    ensures
        match account {
            Some(name) => session_account(markers@, session_view(*session), at) == Some(name@),
            None => session_account(markers@, session_view(*session), at) is None,
        },
{
    let key: &(String, String) = match session {
        Some(key) => key,
        None => {
            return None;
        },
    };
    let mut i: usize = 0;
    assert(markers@.skip(0) =~= markers@);
    while i < markers.len()
        invariant
            i <= markers@.len(),
            *session == Some(*key),
            boundaries_of(markers@, key.0@, key.1@) == boundaries_of(
                markers@.skip(i as int),
                key.0@,
                key.1@,
            ),
        decreases markers@.len() - i,
    {
        assert(markers@.skip(i as int)[0] == markers@[i as int]);
        if same_text(markers[i].source.as_str(), key.0.as_str()) && same_text(
            markers[i].native.as_str(),
            key.1.as_str(),
        ) {
            return account_in_force(&markers[i].boundaries, at);
        }
        assert(markers@.skip(i as int).drop_first() =~= markers@.skip(i + 1));
        i = i + 1;
    }
    assert(account_at(Seq::<AccountMarkerBoundary>::empty(), at) is None);
    None
}

proof fn lemma_in_force(boundaries: Seq<AccountMarkerBoundary>, at: UtcTimestamp)
    ensures
        match in_force(boundaries, at) {
            Some(boundary) => boundary.observed_at.nanos <= at.nanos && boundaries.contains(boundary),
            None => forall|i: int|
                0 <= i < boundaries.len() ==> (#[trigger] boundaries[i]).observed_at.nanos
                    > at.nanos,
        },
    decreases boundaries.len(),
{
    if boundaries.len() > 0 {
        let shorter = boundaries.drop_last();
        lemma_in_force(shorter, at);
        match in_force(boundaries, at) {
            Some(boundary) => {
                if boundary == boundaries.last() {
                    assert(boundaries[boundaries.len() - 1] == boundary);
                } else {
                    let k = choose|k: int| 0 <= k < shorter.len() && shorter[k] == boundary;
                    assert(boundaries[k] == boundary);
                }
            },
            None => {
                assert forall|i: int| 0 <= i < boundaries.len() implies (
                #[trigger] boundaries[i]).observed_at.nanos > at.nanos by {
                    if i < shorter.len() {
                        assert(shorter[i] == boundaries[i]);
                    }
                }
            },
        }
    }
}

/// A boundary takes effect only from its moment on: usage before the first boundary is
/// on no account.
pub proof fn law_boundaries_take_effect_forwards(
    boundaries: Seq<AccountMarkerBoundary>,
    at: UtcTimestamp,
)
    ensures
        account_at(boundaries, at) is Some <==> exists|i: int|
            0 <= i < boundaries.len() && (#[trigger] boundaries[i]).observed_at.nanos <= at.nanos,
        in_force(boundaries, at) matches Some(boundary) ==> boundary.observed_at.nanos <= at.nanos
            && boundaries.contains(boundary),
{
    lemma_in_force(boundaries, at);
    if in_force(boundaries, at) is Some {
        let boundary = in_force(boundaries, at)->0;
        let k = choose|k: int| 0 <= k < boundaries.len() && boundaries[k] == boundary;
        assert(boundaries[k].observed_at.nanos <= at.nanos);
    }
}

/// The latest boundary that is not after a moment decides, and of those at the same
/// moment the one listed last.
pub proof fn law_the_latest_boundary_decides(
    boundaries: Seq<AccountMarkerBoundary>,
    at: UtcTimestamp,
) -> (decides: int)
    requires
        account_at(boundaries, at) is Some,
    ensures
        0 <= decides < boundaries.len(),
        account_at(boundaries, at) == Some(boundaries[decides].account@),
        in_force(boundaries, at) == Some(boundaries[decides]),
        boundaries[decides].observed_at.nanos <= at.nanos,
        forall|i: int|
            0 <= i < boundaries.len() && (#[trigger] boundaries[i]).observed_at.nanos <= at.nanos
                ==> boundaries[i].observed_at.nanos <= boundaries[decides].observed_at.nanos && (
            boundaries[i].observed_at.nanos == boundaries[decides].observed_at.nanos ==> i
                <= decides),
    decreases boundaries.len(),
{
    let shorter = boundaries.drop_last();
    let last = boundaries.last();
    let n = boundaries.len() - 1;
    assert forall|i: int| 0 <= i < n implies #[trigger] boundaries[i] == shorter[i] by {}
    if in_force(shorter, at) is Some {
        let before = law_the_latest_boundary_decides(shorter, at);
        if last.observed_at.nanos > at.nanos || shorter[before].observed_at.nanos
            > last.observed_at.nanos {
            before
        } else {
            n
        }
    } else {
        law_boundaries_take_effect_forwards(shorter, at);
        assert forall|i: int| 0 <= i < n implies (#[trigger] boundaries[i]).observed_at.nanos
            > at.nanos by {
            if boundaries[i].observed_at.nanos <= at.nanos {
                assert(shorter[i].observed_at.nanos <= at.nanos);
                assert(account_at(shorter, at) is Some);
            }
        }
        n
    }
}

/// A session is on the account of its own markers: those of the first entry with its
/// source and native identifier. Without such an entry, and without a session, there is
/// no account.
pub proof fn law_a_session_has_its_own_markers(
    markers: Seq<SessionMarkers>,
    source: Seq<char>,
    native: Seq<char>,
    at: UtcTimestamp,
    k: int,
)
    requires
        0 <= k <= markers.len(),
        k < markers.len() ==> markers[k].source@ == source && markers[k].native@ == native,
        forall|i: int|
            0 <= i < k ==> (#[trigger] markers[i]).source@ != source || markers[i].native@
                != native,
    ensures
        session_account(markers, Some((source, native)), at) == if k < markers.len() {
            account_at(markers[k].boundaries@, at)
        } else {
            None
        },
        session_account(markers, None, at) is None,
    decreases markers.len(),
{
    if k > 0 {
        let rest = markers.drop_first();
        assert(markers[0].source@ != source || markers[0].native@ != native);
        assert forall|i: int| 0 <= i < k - 1 implies (#[trigger] rest[i]).source@ != source
            || rest[i].native@ != native by {
            assert(rest[i] == markers[i + 1]);
        }
        if k < markers.len() {
            assert(rest[k - 1] == markers[k]);
        }
        law_a_session_has_its_own_markers(rest, source, native, at, k - 1);
    }
}

/// A session is known by its source and its native identifier.
pub proof fn law_sessions_are_known_by_both_parts(source: String, native: String)
    ensures
        session_view(Some((source, native))) == Some((source@, native@)),
        session_view(None) is None,
{
}

} // verus!
