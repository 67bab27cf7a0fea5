//! Arguments quoted in messages.

use crate::sets::{join_texts, joined, texts};
use vstd::prelude::*;
use vstd::string::*;

verus! {

/// Text in the quoted and escaped form of its `Debug` output.
pub uninterp spec fn quoted(text: Seq<char>) -> Seq<char>;

/// Quotes text with the `Debug` implementation that `std` gives `str`. Claimed of it is
/// only that the same text is always quoted in the same way; which characters it escapes
/// is not stated.
#[verifier::external_body]
pub(crate) fn quote(text: &str) -> (out: String)
    ensures
        out@ == quoted(text@),
{
    format!("{:?}", text)
}

/// An argument that may be missing, quoted.
pub open spec fn quoted_option(text: Option<Seq<char>>) -> Seq<char> {
    match text {
        Some(t) => "Some("@ + quoted(t) + ")"@,
        None => "None"@,
    }
}

/// Quotes an argument that may be missing.
pub fn quote_option(text: Option<&String>) -> (out: String)
    ensures
        out@ == quoted_option(
            match text {
                Some(t) => Some(t@),
                None => None,
            },
        ),
{
    match text {
        Some(t) => {
            let mut out: String = "Some(".to_owned();
            out.append(quote(t.as_str()).as_str());
            out.append(")");
            out
        },
        None => "None".to_owned(),
    }
}

/// Some arguments, quoted.
pub open spec fn quoted_list(items: Seq<Seq<char>>) -> Seq<char> {
    "["@ + joined(items.map_values(|t: Seq<char>| quoted(t)), ", "@) + "]"@
}

/// Quotes some arguments.
pub fn quote_list(items: &Vec<String>) -> (out: String)
    ensures
        out@ == quoted_list(texts(items@)),
{
    let ghost all = texts(items@).map_values(|t: Seq<char>| quoted(t));
    let mut list: Vec<String> = Vec::new();
    let mut i: usize = 0;
    assert(texts(list@) =~= all.take(0));
    while i < items.len()
        invariant
            i <= items@.len(),
            all == texts(items@).map_values(|t: Seq<char>| quoted(t)),
            texts(list@) == all.take(i as int),
        decreases items@.len() - i,
    {
        let ghost before = list@;
        list.push(quote(items[i].as_str()));
        assert(texts(list@) =~= texts(before).push(list@.last()@));
        assert(all[i as int] == list@.last()@);
        assert(texts(list@) =~= all.take(i + 1));
        i = i + 1;
    }
    assert(all.take(items@.len() as int) =~= all);
    let mut out: String = "[".to_owned();
    out.append(join_texts(&list, ", ").as_str());
    out.append("]");
    out
}

} // verus!
