use vstd::prelude::*;
use vstd::string::StrSliceExecFns;

verus! {

/// The text in lower case, as `str::to_lowercase` of the standard library
/// gives it.
pub uninterp spec fn lowercase(text: Seq<char>) -> Seq<char>;

/// `str::to_lowercase` of the standard library: the lower case of a text
/// by the rules of Unicode. The contract gives the result its name,
/// `lowercase`, and claims nothing else of it.
#[verifier::external_body]
fn to_lowercase(text: &str) -> (r: String)
    ensures
        r@ == lowercase(text@),
{
    text.to_lowercase()
}

/// The pieces of `text` between its spaces, in their order. A text without
/// a space is one piece; two spaces in a row have an empty piece between
/// them; the empty text is one empty piece.
pub open spec fn pieces(text: Seq<char>) -> Seq<Seq<char>>
    decreases text.len(),
{
    if text.len() == 0 {
        seq![Seq::empty()]
    } else {
        let before = pieces(text.drop_last());
        if text.last() == ' ' {
            before.push(Seq::empty())
        } else {
            before.update(before.len() - 1, before.last().push(text.last()))
        }
    }
}

/// The words of a tag or of a query: the pieces of its lower case.
pub open spec fn words_of(text: Seq<char>) -> Seq<Seq<char>> {
    pieces(lowercase(text))
}

/// Splits `text` at its spaces.
pub fn split_words(text: &str) -> (r: Vec<String>)
    ensures
        r.deep_view() == pieces(text@),
{
    let n = text.unicode_len();
    let mut done: Vec<String> = Vec::new();
    let mut start: usize = 0;
    let mut i: usize = 0;
    proof {
        assert(text@.subrange(0, 0) =~= Seq::<char>::empty());
        assert(done.deep_view().push(text@.subrange(0, 0)) =~= pieces(text@.subrange(0, 0)));
    }
    while i < n
        invariant
            n == text@.len(),
            start <= i <= n,
            done.deep_view().push(text@.subrange(start as int, i as int)) == pieces(
                text@.subrange(0, i as int),
            ),
        decreases n - i,
    {
        let ghost before = done.deep_view();
        let ghost word = text@.subrange(start as int, i as int);
        let ghost seen = text@.subrange(0, i + 1);
        proof {
            assert(seen.drop_last() =~= text@.subrange(0, i as int));
            assert(seen.last() == text@[i as int]);
        }
        let c = text.get_char(i);
        if c == ' ' {
            let piece = text.substring_char(start, i).to_owned();
            done.push(piece);
            start = i + 1;
            proof {
                assert(done.deep_view() =~= before.push(word));
                assert(text@.subrange(start as int, i + 1) =~= Seq::<char>::empty());
            }
        } else {
            proof {
                assert(text@.subrange(start as int, i + 1) =~= word.push(text@[i as int]));
                assert(before.push(word).update(before.len() as int, word.push(text@[i as int]))
                    =~= before.push(word.push(text@[i as int])));
            }
        }
        i += 1;
    }
    let ghost before = done.deep_view();
    let piece = text.substring_char(start, n).to_owned();
    done.push(piece);
    proof {
        assert(done.deep_view() =~= before.push(text@.subrange(start as int, n as int)));
        assert(text@.subrange(0, n as int) =~= text@);
    }
    done
}

/// The words of a tag or of a query, by which the index files and finds a
/// path.
pub fn query_words(text: &str) -> (r: Vec<String>)
    ensures
        r.deep_view() == words_of(text@),
{
    let lower = to_lowercase(text);
    split_words(lower.as_str())
}

} // verus!
