//! Tags: the free-form labels on projects, tasks and logs.

use vstd::prelude::*;
use crate::error::{Error, ErrorView};
use crate::text::{chars_of, lines, lowered, same_text, to_lowercase};

verus! {

/// Whether `c` may stand in a tag: a lower-case ASCII letter, a digit, a
/// hyphen or an underscore.
pub open spec fn is_tag_char(c: char) -> bool {
    'a' <= c <= 'z' || '0' <= c <= '9' || c == '-' || c == '_'
}

/// Whether `t` is made of tag characters only.
pub open spec fn is_tag_text(t: Seq<char>) -> bool {
    forall|i: int| 0 <= i < t.len() ==> is_tag_char(#[trigger] t[i])
}

/// What a text gives as a tag: its lower-case form, or the fault where that
/// holds a character that may not stand in a tag.
pub open spec fn tag_of(t: Seq<char>) -> Result<Seq<char>, ErrorView> {
    if is_tag_text(lowered(t)) {
        Ok(lowered(t))
    } else {
        Err(ErrorView::TagHasInvalidChars(lowered(t)))
    }
}

/// Turns a text into a tag.
pub fn validate_tag(tag: &str) -> (r: Result<String, Error>)
    ensures
        match r {
            Ok(t) => tag_of(tag@) == Ok::<Seq<char>, ErrorView>(t@),
            Err(e) => tag_of(tag@) == Err::<Seq<char>, ErrorView>(e@),
        },
{
    let lower = to_lowercase(tag);
    let v = chars_of(lower.as_str());
    let mut i: usize = 0;
    while i < v.len()
        invariant
            i <= v.len(),
            v@ == lowered(tag@),
            lower@ == v@,
            forall|k: int| 0 <= k < i ==> is_tag_char(#[trigger] v@[k]),
        decreases v.len() - i,
    {
        let c = v[i];
        if !(('a' <= c && c <= 'z') || ('0' <= c && c <= '9') || c == '-' || c == '_') {
            assert(!is_tag_char(v@[i as int]));
            return Err(Error::TagHasInvalidChars(lower));
        }
        i = i + 1;
    }
    Ok(lower)
}

/// The set of tags that a list of texts gives, in the order in which each
/// tag first occurs, or the fault of the first text that is no tag.
pub open spec fn tags_of(list: Seq<Seq<char>>) -> Result<Seq<Seq<char>>, ErrorView>
    decreases list.len(),
{
    if list.len() == 0 {
        Ok(Seq::empty())
    } else {
        match tags_of(list.drop_last()) {
            Err(e) => Err(e),
            Ok(tags) => match tag_of(list.last()) {
                Err(e) => Err(e),
                Ok(t) => if tags.contains(t) {
                    Ok(tags)
                } else {
                    Ok(tags.push(t))
                },
            },
        }
    }
}

/// A set of tags holds no tag twice, and nothing but tags.
pub proof fn lemma_tags_are_a_set(list: Seq<Seq<char>>)
    ensures
        tags_of(list) matches Ok(tags) ==> tags.no_duplicates() && forall|i: int|
            0 <= i < tags.len() ==> is_tag_text(#[trigger] tags[i]),
    decreases list.len(),
{
    if list.len() > 0 {
        lemma_tags_are_a_set(list.drop_last());
    }
}

/// A fault among the first texts is the fault of the whole list.
pub proof fn lemma_tags_fault(list: Seq<Seq<char>>, upto: int)
    requires
        0 <= upto <= list.len(),
        tags_of(list.take(upto)) is Err,
    ensures
        tags_of(list) == tags_of(list.take(upto)),
    decreases list.len() - upto,
{
    if upto < list.len() {
        assert(list.take(upto + 1).drop_last() == list.take(upto));
        lemma_tags_fault(list, upto + 1);
    } else {
        assert(list.take(upto) == list);
    }
}

/// Tells whether `word` is among `list`.
pub fn holds(list: &Vec<String>, word: &str) -> (r: bool)
    ensures
        r == lines(list@).contains(word@),
{
    let mut i: usize = 0;
    while i < list.len()
        invariant
            i <= list.len(),
            forall|k: int| 0 <= k < i ==> (#[trigger] list@[k])@ != word@,
        decreases list.len() - i,
    {
        if same_text(list[i].as_str(), word) {
            assert(lines(list@)[i as int] == word@);
            return true;
        }
        i = i + 1;
    }
    assert forall|k: int| 0 <= k < lines(list@).len() implies lines(list@)[k] != word@ by {
        assert(lines(list@)[k] == list@[k]@);
    }
    false
}

/// Turns a list of texts into a set of tags.
pub fn collect_tags(list: &Vec<String>) -> (r: Result<Vec<String>, Error>)
    ensures
        match r {
            Ok(tags) => tags_of(lines(list@)) == Ok::<Seq<Seq<char>>, ErrorView>(lines(tags@)),
            Err(e) => tags_of(lines(list@)) == Err::<Seq<Seq<char>>, ErrorView>(e@),
        },
{
    let ghost all = lines(list@);
    let mut tags: Vec<String> = Vec::new();
    let mut i: usize = 0;
    assert(all.take(0) == Seq::<Seq<char>>::empty());
    assert(lines(tags@) == Seq::<Seq<char>>::empty());
    while i < list.len()
        invariant
            i <= list.len(),
            all == lines(list@),
            tags_of(all.take(i as int)) == Ok::<Seq<Seq<char>>, ErrorView>(lines(tags@)),
        decreases list.len() - i,
    {
        let ghost next = all.take(i + 1);
        assert(next.drop_last() == all.take(i as int));
        assert(next.last() == list@[i as int]@);
        match validate_tag(list[i].as_str()) {
            Err(e) => {
                proof {
                    lemma_tags_fault(all, i + 1);
                }
                return Err(e);
            },
            Ok(t) => {
                if !holds(&tags, t.as_str()) {
                    let ghost before = tags@;
                    tags.push(t);
                    assert(lines(tags@) == lines(before).push(t@));
                }
            },
        }
        i = i + 1;
    }
    assert(all.take(list.len() as int) == all);
    Ok(tags)
}

/// Whether two lists have a text in common.
pub open spec fn share_one(a: Seq<Seq<char>>, b: Seq<Seq<char>>) -> bool {
    exists|i: int| 0 <= i < a.len() && b.contains(#[trigger] a[i])
}

/// Tells whether two lists of tags have a tag in common.
pub fn tags_intersect(a: &Vec<String>, b: &Vec<String>) -> (r: bool)
    ensures
        r == share_one(lines(a@), lines(b@)),
{
    let mut i: usize = 0;
    while i < a.len()
        invariant
            i <= a.len(),
            forall|k: int| 0 <= k < i ==> !lines(b@).contains(#[trigger] lines(a@)[k]),
        decreases a.len() - i,
    {
        assert(lines(a@)[i as int] == a@[i as int]@);
        if holds(b, a[i].as_str()) {
            return true;
        }
        i = i + 1;
    }
    false
}

/// A copy of a list of texts.
pub fn copy_lines(list: &Vec<String>) -> (r: Vec<String>)
    ensures
        lines(r@) == lines(list@),
{
    let mut out: Vec<String> = Vec::new();
    let mut i: usize = 0;
    while i < list.len()
        invariant
            i <= list.len(),
            out.len() == i,
            forall|k: int| 0 <= k < i ==> (#[trigger] out@[k])@ == list@[k]@,
        decreases list.len() - i,
    {
        out.push(list[i].clone());
        i = i + 1;
    }
    assert(lines(out@) =~= lines(list@));
    out
}

} // verus!
