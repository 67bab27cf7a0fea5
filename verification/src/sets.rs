//! Ordered sets of text, kept as ascending vectors without repetition.

use crate::text::{
    comes_before, lemma_text_order_total, lemma_text_order_transitive, lemma_within_between,
    lemma_within_chain, same_text, text_before, within,
};
use vstd::prelude::*;

verus! {

/// What a vector of strings holds, as sequences of characters.
pub open spec fn texts(items: Seq<String>) -> Seq<Seq<char>> {
    items.map_values(|s: String| s@)
}

/// Whether the items ascend strictly in text order.
pub open spec fn ascending(items: Seq<Seq<char>>) -> bool {
    forall|i: int, j: int|
        #![trigger items[i], items[j]]
        0 <= i < j < items.len() ==> text_before(items[i], items[j])
}

/// `items` with `item` in its place, unless it is there already.
pub open spec fn inserted(items: Seq<Seq<char>>, item: Seq<char>) -> Seq<Seq<char>>
    decreases items.len(),
{
    if items.len() == 0 || text_before(items.last(), item) {
        items.push(item)
    } else if items.last() == item {
        items
    } else {
        inserted(items.drop_last(), item).push(items.last())
    }
}

/// The items of a list as an ascending list without repetition.
pub open spec fn ordered_set(items: Seq<Seq<char>>) -> Seq<Seq<char>>
    decreases items.len(),
{
    if items.len() == 0 {
        items
    } else {
        inserted(ordered_set(items.drop_last()), items.last())
    }
}

/// Inserting keeps the order and adds the one item.
pub proof fn lemma_inserted(items: Seq<Seq<char>>, item: Seq<char>)
    requires
        ascending(items),
    ensures
        ascending(inserted(items, item)),
        forall|x: Seq<char>| #[trigger]
            inserted(items, item).contains(x) <==> (items.contains(x) || x == item),
    decreases items.len(),
{
    let out = inserted(items, item);
    if items.len() == 0 || text_before(items.last(), item) {
        assert forall|i: int, j: int|
            #![trigger out[i], out[j]]
            0 <= i < j < out.len() implies text_before(out[i], out[j]) by {
            if j == items.len() {
                if i < items.len() - 1 {
                    assert(text_before(items[i], items[items.len() - 1]));
                    lemma_text_order_transitive(items[i], items.last(), item);
                }
            }
        }
        assert forall|x: Seq<char>| #[trigger] out.contains(x) <==> (items.contains(x) || x == item) by {
            if items.contains(x) {
                let k = choose|k: int| 0 <= k < items.len() && items[k] == x;
                assert(out[k] == x);
            }
            assert(out[items.len() as int] == item);
            if out.contains(x) {
                let k = choose|k: int| 0 <= k < out.len() && out[k] == x;
                if k < items.len() {
                    assert(items[k] == x);
                }
            }
        }
    } else if items.last() == item {
        assert(items[items.len() - 1] == item);
    } else {
        let shorter = items.drop_last();
        let last = items.last();
        lemma_inserted(shorter, item);
        let inner = inserted(shorter, item);
        lemma_text_order_total(last, item);
        assert forall|i: int, j: int|
            #![trigger out[i], out[j]]
            0 <= i < j < out.len() implies text_before(out[i], out[j]) by {
            assert(out[i] == inner[i]);
            if j == inner.len() {
                assert(inner.contains(inner[i]));
                if inner[i] != item {
                    let k = choose|k: int| 0 <= k < shorter.len() && shorter[k] == inner[i];
                    assert(items[k] == inner[i]);
                    assert(items[items.len() - 1] == last);
                }
            } else {
                assert(out[j] == inner[j]);
            }
        }
        assert forall|x: Seq<char>| #[trigger] out.contains(x) <==> (items.contains(x) || x == item) by {
            if items.contains(x) {
                let k = choose|k: int| 0 <= k < items.len() && items[k] == x;
                if k < shorter.len() {
                    assert(shorter[k] == x);
                    assert(inner.contains(x));
                    let m = choose|m: int| 0 <= m < inner.len() && inner[m] == x;
                    assert(out[m] == x);
                } else {
                    assert(out[inner.len() as int] == x);
                }
            }
            if x == item {
                assert(inner.contains(x));
                let m = choose|m: int| 0 <= m < inner.len() && inner[m] == x;
                assert(out[m] == x);
            }
            if out.contains(x) {
                let m = choose|m: int| 0 <= m < out.len() && out[m] == x;
                if m < inner.len() {
                    assert(inner[m] == x);
                    assert(inner.contains(x));
                    if x != item {
                        let k = choose|k: int| 0 <= k < shorter.len() && shorter[k] == x;
                        assert(items[k] == x);
                    }
                } else {
                    assert(items[items.len() - 1] == x);
                }
            }
        }
    }
}

/// An ordered set ascends strictly and holds exactly the items of its list.
pub proof fn lemma_ordered_set(items: Seq<Seq<char>>)
    ensures
        ascending(ordered_set(items)),
        forall|x: Seq<char>| #[trigger] ordered_set(items).contains(x) <==> items.contains(x),
    decreases items.len(),
{
    if items.len() > 0 {
        let shorter = items.drop_last();
        lemma_ordered_set(shorter);
        lemma_inserted(ordered_set(shorter), items.last());
        assert forall|x: Seq<char>| #[trigger]
            ordered_set(items).contains(x) <==> items.contains(x) by {
            if items.contains(x) {
                let k = choose|k: int| 0 <= k < items.len() && items[k] == x;
                if k < shorter.len() {
                    assert(shorter[k] == x);
                    assert(shorter.contains(x));
                }
            }
            if shorter.contains(x) {
                let k = choose|k: int| 0 <= k < shorter.len() && shorter[k] == x;
                assert(items[k] == x);
            }
            assert(items[items.len() - 1] == items.last());
        }
    }
}

/// Inserting means putting the item behind the last one that comes before it.
pub proof fn lemma_inserted_at(items: Seq<Seq<char>>, item: Seq<char>, at: int)
    requires
        0 <= at <= items.len(),
        at > 0 ==> text_before(items[at - 1], item),
        forall|k: int|
            at <= k < items.len() ==> !text_before(#[trigger] items[k], item) && items[k] != item,
    ensures
        inserted(items, item) == items.insert(at, item),
    decreases items.len(),
{
    if at == items.len() {
        assert(items.insert(at, item) =~= items.push(item));
    } else {
        let shorter = items.drop_last();
        assert(!text_before(items[items.len() - 1], item));
        lemma_inserted_at(shorter, item, at);
        assert(items.insert(at, item) =~= shorter.insert(at, item).push(items.last()));
    }
}

/// Inserting an item that is there changes nothing.
pub proof fn lemma_inserted_present(items: Seq<Seq<char>>, item: Seq<char>, at: int)
    requires
        0 <= at < items.len(),
        items[at] == item,
        forall|k: int|
            at < k < items.len() ==> !text_before(#[trigger] items[k], item) && items[k] != item,
    ensures
        inserted(items, item) == items,
    decreases items.len(),
{
    lemma_text_order_total(item, item);
    if at < items.len() - 1 {
        let shorter = items.drop_last();
        assert(!text_before(items[items.len() - 1], item));
        lemma_inserted_present(shorter, item, at);
        assert(shorter.push(items.last()) =~= items);
    }
}

/// Puts an item into an ordered set, unless it is there already.
pub fn insert_text(items: &mut Vec<String>, item: String)
    ensures
        texts(final(items)@) == inserted(texts(old(items)@), item@),
{
    let ghost before = texts(items@);
    let mut slot: usize = items.len();
    while slot > 0
        invariant
            slot <= items@.len(),
            before == texts(items@),
            items@ == old(items)@,
            forall|k: int|
                slot <= k < before.len() ==> !text_before(#[trigger] before[k], item@)
                    && before[k] != item@,
        decreases slot,
    {
        assert(before[slot - 1] == items@[slot - 1]@);
        if same_text(items[slot - 1].as_str(), item.as_str()) {
            proof {
                lemma_inserted_present(before, item@, slot - 1);
            }
            return ;
        }
        if comes_before(items[slot - 1].as_str(), item.as_str()) {
            proof {
                lemma_inserted_at(before, item@, slot as int);
                assert(texts(items@.insert(slot as int, item)) =~= before.insert(
                    slot as int,
                    item@,
                ));
            }
            items.insert(slot, item);
            return ;
        }
        slot = slot - 1;
    }
    proof {
        lemma_inserted_at(before, item@, 0);
        assert(texts(items@.insert(0, item)) =~= before.insert(0, item@));
    }
    items.insert(0, item);
}

/// Whether a list of strings holds a piece of text.
pub fn holds_text(items: &Vec<String>, item: &str) -> (held: bool)
    ensures
        held == texts(items@).contains(item@),
{
    let mut i: usize = 0;
    while i < items.len()
        invariant
            i <= items@.len(),
            forall|k: int| 0 <= k < i ==> #[trigger] texts(items@)[k] != item@,
        decreases items@.len() - i,
    {
        if same_text(items[i].as_str(), item) {
            assert(texts(items@)[i as int] == item@);
            return true;
        }
        i = i + 1;
    }
    assert(!texts(items@).contains(item@));
    false
}

/// Copies a list of strings.
pub fn copied_texts(items: &Vec<String>) -> (out: Vec<String>)
    ensures
        texts(out@) == texts(items@),
        out@ == items@,
{
    let mut out: Vec<String> = Vec::new();
    let mut i: usize = 0;
    while i < items.len()
        invariant
            i <= items@.len(),
            out@ == items@.take(i as int),
        decreases items@.len() - i,
    {
        out.push(items[i].clone());
        assert(out@ =~= items@.take(i + 1));
        i = i + 1;
    }
    assert(items@.take(items@.len() as int) =~= items@);
    out
}

/// The items one after the other with a separator between neighbours.
pub open spec fn joined(items: Seq<Seq<char>>, separator: Seq<char>) -> Seq<char>
    decreases items.len(),
{
    if items.len() == 0 {
        Seq::empty()
    } else if items.len() == 1 {
        items[0]
    } else {
        joined(items.drop_last(), separator) + separator + items.last()
    }
}

/// Each text stands within those joined.
pub proof fn lemma_within_joined(items: Seq<Seq<char>>, separator: Seq<char>, i: int)
    requires
        0 <= i < items.len(),
    ensures
        within(joined(items, separator), items[i]),
    decreases items.len(),
{
    let none = Seq::<char>::empty();
    let all = joined(items, separator);
    if items.len() == 1 {
        lemma_within_between(none, items[0], none);
        assert(none + items[0] + none =~= all);
    } else if i == items.len() - 1 {
        let before = joined(items.drop_last(), separator) + separator;
        lemma_within_between(before, items[i], none);
        assert(before + items[i] + none =~= all);
    } else {
        let before = joined(items.drop_last(), separator);
        lemma_within_joined(items.drop_last(), separator, i);
        lemma_within_between(none, before, separator + items.last());
        assert(none + before + (separator + items.last()) =~= all);
        lemma_within_chain(all, before, items[i]);
    }
}

/// Joins strings with a separator between neighbours.
pub fn join_texts(items: &Vec<String>, separator: &str) -> (out: String)
    ensures
        out@ == joined(texts(items@), separator@),
{
    let mut out: String = String::new();
    let mut i: usize = 0;
    assert(texts(items@).take(0) =~= Seq::empty());
    while i < items.len()
        invariant
            i <= items@.len(),
            out@ == joined(texts(items@).take(i as int), separator@),
        decreases items@.len() - i,
    {
        let ghost next = texts(items@).take(i + 1);
        assert(next.drop_last() =~= texts(items@).take(i as int));
        assert(next.last() == items@[i as int]@);
        if i > 0 {
            out.append(separator);
        }
        out.append(items[i].as_str());
        assert(out@ =~= joined(next, separator@));
        i = i + 1;
    }
    assert(texts(items@).take(items@.len() as int) =~= texts(items@));
    out
}

/// A set of texts in ascending order.
#[derive(Debug, PartialEq, Eq)]
pub struct TextSet {
    items: Vec<String>,
}

impl View for TextSet {
    type V = Seq<Seq<char>>;

    closed spec fn view(&self) -> Seq<Seq<char>> {
        texts(self.items@)
    }
}

impl Clone for TextSet {
    fn clone(&self) -> (copy: Self)
        ensures
            copy@ == self@,
    {
        proof {
            use_type_invariant(self);
        }
        TextSet { items: copied_texts(&self.items) }
    }
}

impl TextSet {
    #[verifier::type_invariant]
    spec fn in_order(&self) -> bool {
        ascending(texts(self.items@))
    }

    /// The empty set.
    pub fn new() -> (set: Self)
        ensures
            set@ == Seq::<Seq<char>>::empty(),
    {
        let items: Vec<String> = Vec::new();
        assert(texts(items@) =~= Seq::empty());
        TextSet { items }
    }

    /// The set of the texts in a list.
    pub fn from_items(list: &Vec<String>) -> (set: Self)
        ensures
            set@ == ordered_set(texts(list@)),
    {
        let mut items: Vec<String> = Vec::new();
        let mut i: usize = 0;
        assert(texts(items@) =~= Seq::empty());
        assert(texts(list@).take(0) =~= Seq::empty());
        while i < list.len()
            invariant
                i <= list@.len(),
                texts(items@) == ordered_set(texts(list@).take(i as int)),
            decreases list@.len() - i,
        {
            let ghost next = texts(list@).take(i + 1);
            assert(next.drop_last() =~= texts(list@).take(i as int));
            insert_text(&mut items, list[i].clone());
            i = i + 1;
        }
        assert(texts(list@).take(list@.len() as int) =~= texts(list@));
        proof {
            lemma_ordered_set(texts(list@));
        }
        TextSet { items }
    }

    /// Puts a text into the set.
    pub fn insert(&mut self, item: &str)
        ensures
            final(self)@ == inserted(old(self)@, item@),
    {
        proof {
            use_type_invariant(&*self);
        }
        let mut items: Vec<String> = copied_texts(&self.items);
        insert_text(&mut items, item.to_owned());
        proof {
            lemma_inserted(old(self)@, item@);
        }
        self.items = items;
    }

    pub fn len(&self) -> (len: usize)
        ensures
            len == self@.len(),
    {
        self.items.len()
    }

    pub fn is_empty(&self) -> (empty: bool)
        ensures
            empty == (self@.len() == 0),
    {
        self.items.len() == 0
    }

    /// Whether the set holds a text.
    pub fn contains(&self, item: &str) -> (held: bool)
        ensures
            held == self@.contains(item@),
    {
        holds_text(&self.items, item)
    }

    /// The texts of the set in order.
    pub fn items(&self) -> (items: &Vec<String>)
        ensures
            texts(items@) == self@,
            ascending(self@),
    {
        proof {
            use_type_invariant(self);
        }
        &self.items
    }

    /// The texts joined with a separator.
    pub fn join(&self, separator: &str) -> (out: String)
        ensures
            out@ == joined(self@, separator@),
    {
        join_texts(&self.items, separator)
    }

    /// The texts that two sets share, in order.
    pub fn shared_with(&self, other: &TextSet) -> (shared: Vec<String>)
        ensures
            texts(shared@) == self@.filter(|t: Seq<char>| other@.contains(t)),
    {
        let ghost in_other = |t: Seq<char>| other@.contains(t);
        let mut shared: Vec<String> = Vec::new();
        let mut i: usize = 0;
        proof {
            reveal(Seq::filter);
            assert(texts(shared@) =~= self@.take(0).filter(in_other));
        }
        while i < self.items.len()
            invariant
                i <= self.items@.len(),
                self.items@.len() == self@.len(),
                in_other == (|t: Seq<char>| other@.contains(t)),
                texts(shared@) == self@.take(i as int).filter(in_other),
            decreases self.items@.len() - i,
        {
            proof {
                reveal(Seq::filter);
                let next = self@.take(i + 1);
                assert(next.drop_last() =~= self@.take(i as int));
                assert(next.last() == self.items@[i as int]@);
            }
            let ghost before = shared@;
            if other.contains(self.items[i].as_str()) {
                shared.push(self.items[i].clone());
                assert(texts(shared@) =~= texts(before).push(self.items@[i as int]@));
            }
            i = i + 1;
        }
        assert(self@.take(self@.len() as int) =~= self@);
        shared
    }
}

/// Joined items stand one after the other with the separator between them and nowhere
/// else.
pub proof fn law_items_are_joined_one_by_one(
    items: Seq<Seq<char>>,
    last: Seq<char>,
    separator: Seq<char>,
)
    ensures
        joined(Seq::empty(), separator).len() == 0,
        joined(seq![last], separator) == last,
        items.len() > 0 ==> joined(items.push(last), separator) == joined(items, separator)
            + separator + last,
{
    assert(items.push(last).drop_last() =~= items);
}

/// A set of texts ascends, each text once, and holds exactly the items it was made of.
pub proof fn law_sets_hold_each_item_once(items: Seq<Seq<char>>, item: Seq<char>)
    ensures
        ordered_set(items).contains(item) <==> items.contains(item),
        forall|i: int, j: int|
            #![trigger ordered_set(items)[i], ordered_set(items)[j]]
            0 <= i < j < ordered_set(items).len() ==> text_before(
                ordered_set(items)[i],
                ordered_set(items)[j],
            ),
        inserted(ordered_set(items), item) == ordered_set(items.push(item)),
{
    lemma_ordered_set(items);
    assert(items.push(item).drop_last() =~= items);
}

} // verus!
