//! Properties of the matcher that relate its results across inputs and calls.

use vstd::prelude::*;
use crate::matcher::{lower_of, lines_containing, lines_containing_folded};
use crate::text::{contains, lines};

verus! {

/// Where `keep` holds of every element of `s` that `pick` holds of, filtering
/// by `keep` retains at least as many elements, and every one that `pick`
/// retains.
proof fn lemma_filter_weaker(s: Seq<Seq<char>>, pick: spec_fn(Seq<char>) -> bool, keep: spec_fn(Seq<char>) -> bool)
    requires
        forall|i: int| 0 <= i < s.len() && pick(s[i]) ==> keep(s[i]),
    ensures
        s.filter(pick).len() <= s.filter(keep).len(),
        forall|l: Seq<char>| s.filter(pick).contains(l) ==> s.filter(keep).contains(l),
    decreases s.len(),
{
    reveal(Seq::filter);
    if s.len() > 0 {
        let rest = s.drop_last();
        lemma_filter_weaker(rest, pick, keep);
        assert forall|l: Seq<char>| s.filter(pick).contains(l) implies s.filter(keep).contains(l) by {
            let last = s.last();
            let k = choose|k: int| 0 <= k < s.filter(pick).len() && s.filter(pick)[k] == l;
            if pick(last) && k == s.filter(pick).len() - 1 {
                assert(pick(s[s.len() - 1]));
                assert(s.filter(keep)[s.filter(keep).len() - 1] == l);
            } else {
                assert(rest.filter(pick)[k] == l);
                assert(rest.filter(pick).contains(l));
                let m = choose|m: int| 0 <= m < rest.filter(keep).len() && rest.filter(keep)[m] == l;
                if keep(last) {
                    assert(s.filter(keep) == rest.filter(keep).push(last));
                }
                assert(s.filter(keep)[m] == l);
            }
        }
    }
}

/// The exact search returns only lines of the text that contain the query, and
/// every line of the text that contains it.
pub proof fn lemma_matches_are_the_containing_lines(query: Seq<char>, text: Seq<char>)
    ensures
        forall|i: int|
            0 <= i < lines_containing(query, text).len() ==> contains(#[trigger] lines_containing(query, text)[i], query)
                && lines(text).contains(lines_containing(query, text)[i]),
        forall|j: int|
            0 <= j < lines(text).len() && contains(#[trigger] lines(text)[j], query) ==> lines_containing(
                query,
                text,
            ).contains(lines(text)[j]),
{
    let keep = |l: Seq<char>| contains(l, query);
    broadcast use Seq::lemma_filter_pred, Seq::lemma_filter_contains, Seq::lemma_filter_contains_rev;
    assert forall|i: int| 0 <= i < lines_containing(query, text).len() implies lines(text).contains(
        #[trigger] lines_containing(query, text)[i],
    ) by {
        assert(lines(text).filter(keep).contains(lines(text).filter(keep)[i]));
    }
}

/// Searching twice with the same query and text gives the same lines, in the
/// same order.
pub proof fn lemma_search_is_repeatable(
    query: Seq<char>,
    text: Seq<char>,
    first: Seq<Seq<char>>,
    second: Seq<Seq<char>>,
)
    requires
        first == lines_containing(query, text),
        second == lines_containing(query, text),
    ensures
        first == second,
{
}

/// An empty query matches every line of the text, in order.
pub proof fn lemma_empty_query_matches_every_line(text: Seq<char>)
    ensures
        lines_containing(Seq::empty(), text) == lines(text),
{
    let all = lines(text);
    assert forall|l: Seq<char>| contains(l, Seq::empty()) by {
        assert(l.subrange(0, 0 + Seq::<char>::empty().len() as int) =~= Seq::<char>::empty());
    }
    lemma_filter_keeps_all(all, |l: Seq<char>| contains(l, Seq::empty()));
}

/// Filtering by a condition that holds of every element changes nothing.
proof fn lemma_filter_keeps_all(s: Seq<Seq<char>>, keep: spec_fn(Seq<char>) -> bool)
    requires
        forall|l: Seq<char>| #[trigger] keep(l),
    ensures
        s.filter(keep) == s,
    decreases s.len(),
{
    reveal(Seq::filter);
    if s.len() > 0 {
        lemma_filter_keeps_all(s.drop_last(), keep);
        assert(s.drop_last().push(s.last()) =~= s);
    }
}

/// Where folding case keeps every exact match of `query` among the lines of
/// `text` a match, the case-insensitive search returns at least as many lines
/// as the exact one, and every line that the exact one returns.
pub proof fn lemma_folded_search_keeps_exact_matches(query: Seq<char>, text: Seq<char>)
    requires
        forall|l: Seq<char>|
            lines(text).contains(l) && contains(l, query) ==> contains(lower_of(l), lower_of(query)),
    ensures
        lines_containing(query, text).len() <= lines_containing_folded(query, text).len(),
        forall|l: Seq<char>|
            lines_containing(query, text).contains(l) ==> lines_containing_folded(query, text).contains(l),
{
    let all = lines(text);
    assert forall|i: int| 0 <= i < all.len() && contains(all[i], query) implies contains(
        lower_of(all[i]),
        lower_of(query),
    ) by {
        assert(all.contains(all[i]));
    }
    lemma_filter_weaker(
        all,
        |l: Seq<char>| contains(l, query),
        |l: Seq<char>| contains(lower_of(l), lower_of(query)),
    );
}

} // verus!
