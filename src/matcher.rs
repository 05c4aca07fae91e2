//! The matcher: the lines of a text that contain a query, exactly or after
//! case folding, in document order.

use vstd::prelude::*;
use crate::config::Config;
use crate::text::{contains, contains_query, lines, split_lines, views};

verus! {

/// The lowercase form of `s` as `str::to_lowercase` gives it.
pub uninterp spec fn lower_of(s: Seq<char>) -> Seq<char>;

/// Relies on `str::to_lowercase`: its result is the lowercase form of `s`,
/// and depends on the characters of `s` alone.
#[verifier::external_body]
fn lowercase(s: &str) -> (r: String)
    ensures
        r@ == lower_of(s@),
{
    s.to_lowercase()
}

/// The lines of `text` that contain `query`, in order.
pub open spec fn lines_containing(query: Seq<char>, text: Seq<char>) -> Seq<Seq<char>> {
    lines(text).filter(|l: Seq<char>| contains(l, query))
}

/// The lines of `text` whose lowercase form contains the lowercase form of
/// `query`, in order.
pub open spec fn lines_containing_folded(query: Seq<char>, text: Seq<char>) -> Seq<Seq<char>> {
    lines(text).filter(|l: Seq<char>| contains(lower_of(l), lower_of(query)))
}

/// Every line of `contents` that contains `query`, in document order, as
/// slices of `contents`.
pub fn search<'a>(query: &str, contents: &'a str) -> (results: Vec<&'a str>)
    ensures
        views(results@) == lines_containing(query@, contents@),
{
    let all = split_lines(contents);
    let ghost keep = |l: Seq<char>| contains(l, query@);
    let mut results: Vec<&'a str> = Vec::new();
    let mut i: usize = 0;
    while i < all.len()
        invariant
            i <= all@.len(),
            keep == (|l: Seq<char>| contains(l, query@)),
            views(results@) == views(all@).take(i as int).filter(keep),
        decreases all@.len() - i,
    {
        let line = all[i];
        let found = contains_query(line, query);
        let ghost before = results@;
        if found {
            results.push(line);
        }
        proof {
            let seen = views(all@).take(i + 1);
            reveal(Seq::filter);
            assert(seen.drop_last() =~= views(all@).take(i as int));
            assert(seen.last() == line@);
            assert(views(before.push(line)) =~= views(before).push(line@));
            assert(views(results@) == seen.filter(keep));
        }
        i += 1;
    }
    assert(views(all@).take(all@.len() as int) =~= views(all@));
    results
}

/// Every line of `contents` whose lowercase form contains the lowercase form
/// of `query`, in document order, as slices of `contents` (the lines as they
/// stand, not folded).
pub fn search_case_insensitive<'a>(query: &str, contents: &'a str) -> (results: Vec<&'a str>)
    ensures
        views(results@) == lines_containing_folded(query@, contents@),
{
    let folded_query = lowercase(query);
    let all = split_lines(contents);
    let ghost keep = |l: Seq<char>| contains(lower_of(l), lower_of(query@));
    let mut results: Vec<&'a str> = Vec::new();
    let mut i: usize = 0;
    while i < all.len()
        invariant
            i <= all@.len(),
            folded_query@ == lower_of(query@),
            keep == (|l: Seq<char>| contains(lower_of(l), lower_of(query@))),
            views(results@) == views(all@).take(i as int).filter(keep),
        decreases all@.len() - i,
    {
        let line = all[i];
        let folded_line = lowercase(line);
        let found = contains_query(folded_line.as_str(), folded_query.as_str());
        let ghost before = results@;
        if found {
            results.push(line);
        }
        proof {
            let seen = views(all@).take(i + 1);
            reveal(Seq::filter);
            assert(seen.drop_last() =~= views(all@).take(i as int));
            assert(seen.last() == line@);
            assert(views(before.push(line)) =~= views(before).push(line@));
            assert(views(results@) == seen.filter(keep));
        }
        i += 1;
    }
    assert(views(all@).take(all@.len() as int) =~= views(all@));
    results
}

/// The lines of `contents` that `config` asks for: those that contain its
/// query, exactly or ignoring case as it says, in document order.
pub fn matching_lines<'a>(config: &Config, contents: &'a str) -> (results: Vec<&'a str>)
    ensures
        views(results@) == if config.case_sensitive {
            lines_containing(config.query@, contents@)
        } else {
            lines_containing_folded(config.query@, contents@)
        },
{
    if config.case_sensitive {
        search(config.query.as_str(), contents)
    } else {
        search_case_insensitive(config.query.as_str(), contents)
    }
}

} // verus!
