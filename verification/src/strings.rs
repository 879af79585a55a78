//! Slugs: the file-system-safe identifiers derived from human names.

use vstd::prelude::*;
use crate::text::{
    chars_of, drop_leading, drop_trailing, is_ascii_text, lowered, string_of, strip_char, stripped,
    to_lowercase,
};

verus! {

/// Whether `c` is kept as it is in a slug: a lower-case ASCII letter or a digit.
pub open spec fn is_slug_letter(c: char) -> bool {
    'a' <= c <= 'z' || '0' <= c <= '9'
}

/// Whether `c` becomes a hyphen in a slug.
pub open spec fn is_slug_separator(c: char) -> bool {
    c == '-' || c == ' ' || c == '_'
}

/// The characters of `s` that a slug keeps: letters and digits as they are,
/// one hyphen for each run of characters that are neither and among which
/// there is a space, an underscore or a hyphen, and nothing for the rest.
pub open spec fn slug_chars(s: Seq<char>) -> Seq<char>
    decreases s.len(),
{
    if s.len() == 0 {
        Seq::<char>::empty()
    } else {
        let head = slug_chars(s.drop_last());
        let c = s.last();
        if is_slug_letter(c) {
            head.push(c)
        } else if is_slug_separator(c) && (head.len() == 0 || head.last() != '-') {
            head.push('-')
        } else {
            head
        }
    }
}

/// Whether two hyphens stand side by side at `i` in `s`.
pub open spec fn hyphens_meet(s: Seq<char>, i: int) -> bool {
    s[i] == '-' && s[i + 1] == '-'
}

/// The slug of a name: its lower-case form, reduced to slug characters, each
/// run of other characters collapsed to one hyphen where it holds a
/// separator, without hyphens at either end.
pub open spec fn slug_of(s: Seq<char>) -> Seq<char> {
    stripped(slug_chars(lowered(s)), |c: char| c == '-')
}

/// Whether `s` is made of slug characters only (lower-case ASCII letters,
/// digits and hyphens) and no two hyphens stand side by side.
pub open spec fn is_slug_text(s: Seq<char>) -> bool {
    &&& forall|i: int| 0 <= i < s.len() ==> is_slug_letter(#[trigger] s[i]) || s[i] == '-'
    &&& forall|i: int| 0 <= i < s.len() - 1 ==> !#[trigger] hyphens_meet(s, i)
}

/// Converts `s` into its slug.
pub fn slugify(s: &str) -> (r: String)
    ensures
        r@ == slug_of(s@),
{
    let lower = to_lowercase(s);
    let v = chars_of(lower.as_str());
    let mut kept: Vec<char> = Vec::new();
    let mut i: usize = 0;
    assert(v@.take(0) == Seq::<char>::empty());
    while i < v.len()
        invariant
            i <= v.len(),
            kept@ == slug_chars(v@.take(i as int)),
        decreases v.len() - i,
    {
        let c = v[i];
        proof {
            let next = v@.take(i + 1);
            assert(next.drop_last() == v@.take(i as int));
            assert(next.last() == c);
        }
        if ('a' <= c && c <= 'z') || ('0' <= c && c <= '9') {
            kept.push(c);
        } else if (c == '-' || c == ' ' || c == '_') && (kept.len() == 0 || kept[kept.len() - 1]
            != '-') {
            kept.push('-');
        }
        i = i + 1;
    }
    assert(v@.take(v.len() as int) == v@);
    let out = strip_char(&kept, '-');
    string_of(&out)
}

proof fn lemma_slug_chars_are_slug_text(s: Seq<char>)
    ensures
        is_slug_text(slug_chars(s)),
    decreases s.len(),
{
    if s.len() > 0 {
        let head = slug_chars(s.drop_last());
        let r = slug_chars(s);
        lemma_slug_chars_are_slug_text(s.drop_last());
        assert forall|i: int| 0 <= i < r.len() - 1 implies !#[trigger] hyphens_meet(r, i) by {
            if i < head.len() - 1 {
                assert(!hyphens_meet(head, i));
            }
        }
    }
}

proof fn lemma_slug_chars_fixes_slug_text(s: Seq<char>)
    requires
        is_slug_text(s),
    ensures
        slug_chars(s) == s,
    decreases s.len(),
{
    if s.len() > 0 {
        let t = s.drop_last();
        assert forall|i: int| 0 <= i < t.len() implies is_slug_letter(#[trigger] t[i]) || t[i]
            == '-' by {
            assert(t[i] == s[i]);
        }
        assert forall|i: int| 0 <= i < t.len() - 1 implies !#[trigger] hyphens_meet(t, i) by {
            assert(!hyphens_meet(s, i));
        }
        lemma_slug_chars_fixes_slug_text(t);
        assert(is_slug_letter(s[s.len() - 1]) || s[s.len() - 1] == '-');
        if t.len() > 0 {
            assert(!hyphens_meet(s, s.len() - 2));
        }
        assert(t.push(s.last()) == s);
    }
}

proof fn lemma_drop_leading_shape(s: Seq<char>, p: spec_fn(char) -> bool)
    ensures
        ({
            let r = drop_leading(s, p);
            &&& r.len() <= s.len()
            &&& r == s.subrange(s.len() - r.len(), s.len() as int)
            &&& r.len() > 0 ==> !p(r[0])
        }),
    decreases s.len(),
{
    if s.len() > 0 && p(s[0]) {
        let t = s.drop_first();
        lemma_drop_leading_shape(t, p);
        let r = drop_leading(t, p);
        assert(t.subrange(t.len() - r.len(), t.len() as int) == s.subrange(
            s.len() - r.len(),
            s.len() as int,
        ));
    } else {
        assert(s.subrange(0, s.len() as int) == s);
    }
}

proof fn lemma_drop_trailing_shape(s: Seq<char>, p: spec_fn(char) -> bool)
    ensures
        ({
            let r = drop_trailing(s, p);
            &&& r.len() <= s.len()
            &&& r == s.subrange(0, r.len() as int)
            &&& r.len() > 0 ==> !p(r.last())
        }),
    decreases s.len(),
{
    if s.len() > 0 && p(s.last()) {
        let t = s.drop_last();
        lemma_drop_trailing_shape(t, p);
        let r = drop_trailing(t, p);
        assert(t.subrange(0, r.len() as int) == s.subrange(0, r.len() as int));
    } else {
        assert(s.subrange(0, s.len() as int) == s);
    }
}

/// A slug is made of slug characters only and neither starts nor ends with a
/// hyphen.
pub proof fn lemma_slug_shape(s: Seq<char>)
    ensures
        is_slug_text(slug_of(s)),
        slug_of(s).len() > 0 ==> slug_of(s)[0] != '-' && slug_of(s).last() != '-',
{
    let p = |c: char| c == '-';
    let a = slug_chars(lowered(s));
    let b = drop_leading(a, p);
    let c = drop_trailing(b, p);
    lemma_slug_chars_are_slug_text(lowered(s));
    lemma_drop_leading_shape(a, p);
    lemma_drop_trailing_shape(b, p);
    assert forall|i: int| 0 <= i < c.len() implies is_slug_letter(#[trigger] c[i]) || c[i]
        == '-' by {
        assert(c[i] == b[i]);
        assert(b[i] == a[i + a.len() - b.len()]);
    }
    assert forall|i: int| 0 <= i < c.len() - 1 implies !#[trigger] hyphens_meet(c, i) by {
        assert(c[i] == b[i] && c[i + 1] == b[i + 1]);
        assert(b[i] == a[i + a.len() - b.len()]);
        assert(b[i + 1] == a[i + 1 + a.len() - b.len()]);
        assert(!hyphens_meet(a, i + a.len() - b.len()));
    }
    if c.len() > 0 {
        assert(c[0] == b[0]);
    }
}

/// Slugifying is idempotent: the slug of a slug is that slug.
pub proof fn lemma_slugify_idempotent(s: Seq<char>)
    ensures
        slug_of(slug_of(s)) == slug_of(s),
{
    let p = |c: char| c == '-';
    let t = slug_of(s);
    lemma_slug_shape(s);
    assert forall|i: int| 0 <= i < t.len() implies (#[trigger] t[i] as u32) < 128 by {
        assert(is_slug_letter(t[i]) || t[i] == '-');
    }
    assert(is_ascii_text(t));
    assert(lowered(t) == t) by {
        let m = t.map_values(|c: char| crate::text::ascii_lower(c));
        assert forall|i: int| 0 <= i < t.len() implies m[i] == t[i] by {
            assert(is_slug_letter(t[i]) || t[i] == '-');
        }
        assert(m == t);
    }
    lemma_slug_chars_fixes_slug_text(t);
    assert(drop_leading(t, p) == t);
    assert(drop_trailing(t, p) == t);
}

} // verus!
