//! Tags in a subject line: whitespace-separated words that begin with `#`.

use crate::text::{
    extend, from_chars, is_whitespace, lemma_word_len, lemma_words_of_trimmed, slice,
    split_whitespace, to_chars, trimmed, views, word_len, words,
};
use vstd::prelude::*;

verus! {

/// A tag as written in a subject, without its leading `#`, case preserved.
#[derive(PartialEq, Debug, Clone)]
pub struct Tag(String);

impl View for Tag {
    type V = Seq<char>;

    closed spec fn view(&self) -> Seq<char> {
        self.0@
    }
}

impl Tag {
    pub fn new(tag: &str) -> (r: Tag)
        ensures
            r@ == tag@,
    {
        Tag(tag.to_owned())
    }

    /// The tag's text.
    pub fn as_str(&self) -> (r: &str)
        ensures
            r@ == self@,
    {
        self.0.as_str()
    }

    /// A second tag with the same text.
    pub fn duplicate(&self) -> (r: Tag)
        ensures
            r@ == self@,
    {
        Tag(self.0.clone())
    }
}

/// The texts of `tags`, in order.
pub open spec fn names(tags: Seq<Tag>) -> Seq<Seq<char>> {
    Seq::new(tags.len(), |i: int| tags[i]@)
}

/// A word is tag-marked when it begins with `#`.
pub open spec fn is_tagged(w: Seq<char>) -> bool {
    w.len() > 0 && w[0] == '#'
}

pub open spec fn tagged() -> spec_fn(Seq<char>) -> bool {
    |w: Seq<char>| is_tagged(w)
}

pub open spec fn untagged() -> spec_fn(Seq<char>) -> bool {
    |w: Seq<char>| !is_tagged(w)
}

pub open spec fn unmarked() -> spec_fn(Seq<char>) -> Seq<char> {
    |w: Seq<char>| w.drop_first()
}

/// The tag-marked words among `ws`, in order, each without its marker.
pub open spec fn tag_words(ws: Seq<Seq<char>>) -> Seq<Seq<char>> {
    ws.filter(tagged()).map_values(unmarked())
}

/// The words among `ws` that carry no marker, in order.
pub open spec fn plain_words(ws: Seq<Seq<char>>) -> Seq<Seq<char>> {
    ws.filter(untagged())
}

/// The words of `ws` with a single space between neighbours.
pub open spec fn joined(ws: Seq<Seq<char>>) -> Seq<char>
    decreases ws.len(),
{
    if ws.len() == 0 {
        Seq::empty()
    } else if ws.len() == 1 {
        ws[0]
    } else {
        joined(ws.drop_last()) + seq![' '] + ws.last()
    }
}

/// The tags of a subject: its tag-marked words, left to right, duplicates kept.
pub open spec fn tags_of(subject: Seq<char>) -> Seq<Seq<char>> {
    tag_words(words(subject))
}

/// The title of a subject: its unmarked words joined by single spaces.
pub open spec fn title_of(subject: Seq<char>) -> Seq<char> {
    joined(plain_words(words(subject)))
}

/// Splits a subject into its title and its tags.
pub fn detag(subject: &str) -> (r: (String, Vec<Tag>))
    ensures
        r.0@ == title_of(subject@),
        names(r.1@) == tags_of(subject@),
{
    let chars = to_chars(subject);
    let ws = split_whitespace(&chars);
    let ghost all = views(ws@);
    let mut title: Vec<char> = Vec::new();
    let mut tags: Vec<Tag> = Vec::new();
    let mut started = false;
    let mut k: usize = 0;
    proof {
        reveal(Seq::filter);
    }
    while k < ws.len()
        invariant
            k <= ws.len(),
            all == views(ws@),
            title@ == joined(plain_words(all.take(k as int))),
            names(tags@) == tag_words(all.take(k as int)),
            started == (plain_words(all.take(k as int)).len() > 0),
        decreases ws.len() - k,
    {
        let w = &ws[k];
        let ghost seen = all.take(k as int);
        proof {
            assert(all.take(k + 1) =~= seen.push(w@));
            seen.lemma_filter_push(w@, tagged());
            seen.lemma_filter_push(w@, untagged());
        }
        if w.len() > 0 && w[0] == '#' {
            let name = slice(w, 1, w.len());
            let ghost before = names(tags@);
            tags.push(Tag(from_chars(&name)));
            assert(names(tags@) =~= before.push(name@));
        } else {
            let ghost plain = plain_words(seen);
            assert(plain.push(w@).drop_last() =~= plain);
            if started {
                title.push(' ');
            }
            extend(&mut title, w);
            started = true;
        }
        k = k + 1;
    }
    assert(all.take(ws.len() as int) =~= all);
    (from_chars(&title), tags)
}

proof fn lemma_filter_untagged(ws: Seq<Seq<char>>)
    requires
        forall|i: int| 0 <= i < ws.len() ==> !is_tagged(#[trigger] ws[i]),
    ensures
        ws.filter(untagged()) == ws,
        ws.filter(tagged()) == Seq::<Seq<char>>::empty(),
    decreases ws.len(),
{
    reveal(Seq::filter);
    if ws.len() > 0 {
        lemma_filter_untagged(ws.drop_last());
    }
}

/// A subject without tag-marked words has no tags, and its title is its
/// words joined by single spaces.
pub proof fn lemma_untagged_subject(subject: Seq<char>)
    requires
        forall|i: int| 0 <= i < words(subject).len() ==> !is_tagged(#[trigger] words(subject)[i]),
    ensures
        tags_of(subject) == Seq::<Seq<char>>::empty(),
        title_of(subject) == joined(words(subject)),
{
    lemma_filter_untagged(words(subject));
}

/// Whether the only whitespace in `t` is single spaces between words.
pub open spec fn single_spaced(t: Seq<char>) -> bool {
    forall|i: int|
        0 <= i < t.len() && is_whitespace(#[trigger] t[i]) ==> {
            &&& t[i] == ' '
            &&& 0 < i
            &&& i + 1 < t.len()
            &&& !is_whitespace(t[i + 1])
        }
}

proof fn lemma_joined_front(w: Seq<char>, rest: Seq<Seq<char>>)
    requires
        rest.len() > 0,
    ensures
        joined(seq![w] + rest) == w + seq![' '] + joined(rest),
    decreases rest.len(),
{
    let all = seq![w] + rest;
    assert(all.drop_last() =~= seq![w] + rest.drop_last());
    if rest.len() == 1 {
        assert(joined(seq![w]) == w);
    } else {
        lemma_joined_front(w, rest.drop_last());
    }
}

proof fn lemma_joined_words(t: Seq<char>)
    requires
        single_spaced(t),
    ensures
        joined(words(t)) == t,
    decreases t.len(),
{
    if t.len() > 0 {
        lemma_word_len(t);
        let n = word_len(t) as int;
        if n == t.len() {
            assert(t.take(n) =~= t);
            assert(t.skip(n) =~= Seq::<char>::empty());
            assert(words(Seq::<char>::empty()) =~= Seq::<Seq<char>>::empty());
        } else {
            let rest = t.skip(n);
            let next = t.skip(n + 1);
            assert(rest.drop_first() =~= next);
            assert(words(rest) == words(next));
            assert(single_spaced(next));
            lemma_joined_words(next);
            assert(!is_whitespace(next[0]));
            lemma_word_len(next);
            lemma_joined_front(t.take(n), words(next));
        }
    }
}

/// The title of a subject without tag-marked words, in which the only
/// whitespace between the first and the last word is single spaces, is
/// the trimmed subject; and such a subject has no tags.
pub proof fn lemma_untagged_title(subject: Seq<char>)
    requires
        forall|i: int| 0 <= i < words(subject).len() ==> !is_tagged(#[trigger] words(subject)[i]),
        single_spaced(trimmed(subject)),
    ensures
        title_of(subject) == trimmed(subject),
        tags_of(subject) == Seq::<Seq<char>>::empty(),
{
    lemma_untagged_subject(subject);
    lemma_words_of_trimmed(subject);
    lemma_joined_words(trimmed(subject));
}

/// A subject has as many tags as it has tag-marked words, and the tags
/// stand in the order of those words.
pub proof fn lemma_tags_follow_words(subject: Seq<char>, k: int)
    requires
        0 <= k < words(subject).filter(tagged()).len(),
    ensures
        tags_of(subject).len() == words(subject).filter(tagged()).len(),
        tags_of(subject)[k] == words(subject).filter(tagged())[k].drop_first(),
{
}

} // verus!
