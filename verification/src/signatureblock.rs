//! Removal of the signature block that may end a message body.

use crate::text::{
    find, first_occurrence, from_chars, lemma_first_occurrence, occurs_at, slice, to_chars,
};
use vstd::prelude::*;

verus! {

/// The two characters that open a signature block.
pub open spec fn delimiter() -> Seq<char> {
    seq!['-', '-']
}

/// `s` up to the first occurrence of the delimiter; all of `s` where it
/// holds none. The delimiter is recognised wherever it stands, at the start
/// of a line or after other text, with or without a space behind it.
pub open spec fn without_signature(s: Seq<char>) -> Seq<char> {
    match first_occurrence(s, delimiter()) {
        Some(i) => s.take(i),
        None => s,
    }
}

/// Removes the signature block from a message body: the delimiter and
/// everything after it.
pub fn remove(text: String) -> (r: String)
    ensures
        r@ == without_signature(text@),
{
    let chars = to_chars(text.as_str());
    let mut mark: Vec<char> = Vec::new();
    mark.push('-');
    mark.push('-');
    assert(mark@ =~= delimiter());
    match find(&chars, &mark) {
        Some(i) => {
            let kept = slice(&chars, 0, i);
            from_chars(&kept)
        },
        None => text,
    }
}

/// What is left of a body is its beginning and holds no delimiter, so
/// that removing the signature a second time changes nothing; a body
/// without a delimiter is left as it is.
pub proof fn lemma_without_signature(s: Seq<char>)
    ensures
        without_signature(s).is_prefix_of(s),
        forall|j: int| !occurs_at(without_signature(s), delimiter(), j),
        without_signature(without_signature(s)) == without_signature(s),
        (forall|j: int| !occurs_at(s, delimiter(), j)) ==> without_signature(s) == s,
{
    let d = delimiter();
    let r = without_signature(s);
    lemma_first_occurrence(s, d);
    match first_occurrence(s, d) {
        Some(i) => {
            assert forall|j: int| !occurs_at(r, d, j) by {
                if occurs_at(r, d, j) {
                    assert(r.subrange(j, j + d.len()) =~= s.subrange(j, j + d.len()));
                    assert(occurs_at(s, d, j));
                }
            }
        },
        None => {},
    }
    lemma_first_occurrence(r, d);
}

} // verus!
