use vstd::prelude::*;

use crate::message::clone_strings;

verus! {

/// What two result lists have in common: the items of `ours` that occur in
/// `theirs`, each once, in the order in which `ours` first names them.
pub open spec fn common(ours: Seq<Seq<char>>, theirs: Seq<Seq<char>>) -> Seq<Seq<char>>
    decreases ours.len(),
{
    if ours.len() == 0 {
        Seq::empty()
    } else {
        let before = common(ours.drop_last(), theirs);
        let item = ours.last();
        if theirs.contains(item) && !ours.drop_last().contains(item) {
            before.push(item)
        } else {
            before
        }
    }
}

/// What is left of `found` after it has been narrowed by each list of
/// `rest` in turn.
pub open spec fn narrowed(found: Seq<Seq<char>>, rest: Seq<Seq<Seq<char>>>) -> Seq<Seq<char>>
    decreases rest.len(),
{
    if rest.len() == 0 {
        found
    } else {
        narrowed(common(found, rest[0]), rest.drop_first())
    }
}

/// The ranking of the result lists of the words of a query: the results of
/// the first word, narrowed by the results of every further word. A query
/// of one word keeps the results of that word as they are; a query without
/// words has no results.
pub open spec fn ranked(results: Seq<Seq<Seq<char>>>) -> Seq<Seq<char>> {
    if results.len() == 0 {
        Seq::empty()
    } else {
        narrowed(results[0], results.drop_first())
    }
}

/// `array_tool::vec::Intersect::intersect` on two lists of strings. The
/// function first drops from `ours` every item that has occurred before
/// (`Uniq::unique`, which keeps the first of equal items and the order),
/// and then keeps the items that equal some item of `theirs`. The contract
/// says this with `common`.
#[verifier::external_body]
fn intersect(ours: &Vec<String>, theirs: Vec<String>) -> (r: Vec<String>)
    ensures
        r.deep_view() == common(ours.deep_view(), theirs.deep_view()),
{
    array_tool::vec::Intersect::intersect(ours, theirs)
}

/// Ranks the results of a query by intersection: what is found is what
/// every word of the query has found.
pub fn intersect_rank(results: Vec<Vec<String>>) -> (r: Vec<String>)
    ensures
        r.deep_view() == ranked(results.deep_view()),
{
    if results.len() == 0 {
        let none: Vec<String> = Vec::new();
        assert(none.deep_view() =~= Seq::<Seq<char>>::empty());
        return none;
    }
    let ghost all = results.deep_view();
    let mut found = clone_strings(&results[0]);
    let mut i: usize = 1;
    assert(all.subrange(1, all.len() as int) =~= all.drop_first());
    while i < results.len()
        invariant
            1 <= i <= results.len(),
            all == results.deep_view(),
            narrowed(found.deep_view(), all.subrange(i as int, all.len() as int)) == ranked(all),
        decreases results.len() - i,
    {
        let ghost rest = all.subrange(i as int, all.len() as int);
        assert(rest[0] == results@[i as int].deep_view());
        assert(rest.drop_first() =~= all.subrange(i + 1, all.len() as int));
        found = intersect(&found, clone_strings(&results[i]));
        i += 1;
    }
    found
}

} // verus!
