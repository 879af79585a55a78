//! Rankings: orders in which any two values compare, ties allowed, and in
//! which "no later than" is carried along. Every field that lists are sorted
//! by orders its values in this way.

use vstd::prelude::*;
use crate::duration::Duration;
use crate::sort::{
    moment_relation, number_relation, optional_moment_relation, optional_number_relation,
    optional_text_relation, text_relation, Relation,
};
use crate::timestamp::Timestamp;

verus! {

/// Whether two verdicts on the same two values, asked in either direction,
/// agree: one says "before" exactly when the other says "after".
pub open spec fn mirrored(ab: Relation, ba: Relation) -> bool {
    &&& ab is Less <==> ba is Greater
    &&& ab is Greater <==> ba is Less
}

/// Whether the verdicts on a first and a second value, on the second and a
/// third, and on the first and the third fit together: "before", followed or
/// preceded by "not after", gives "before"; two ties give a tie.
pub open spec fn carried(ab: Relation, bc: Relation, ac: Relation) -> bool {
    &&& ab is Less && !(bc is Greater) ==> ac is Less
    &&& !(ab is Greater) && bc is Less ==> ac is Less
    &&& ab is Equal && bc is Equal ==> ac is Equal
}

/// Texts are ranked: asked in either direction the verdicts agree.
pub proof fn lemma_text_mirrored(a: Seq<char>, b: Seq<char>)
    ensures
        mirrored(text_relation(a, b), text_relation(b, a)),
    decreases a.len(),
{
    if a.len() > 0 && b.len() > 0 && a[0] == b[0] {
        lemma_text_mirrored(a.drop_first(), b.drop_first());
    }
}

/// Texts are ranked: the verdicts on three texts fit together.
pub proof fn lemma_text_carried(a: Seq<char>, b: Seq<char>, c: Seq<char>)
    ensures
        carried(text_relation(a, b), text_relation(b, c), text_relation(a, c)),
    decreases a.len(),
{
    if a.len() > 0 && b.len() > 0 && c.len() > 0 && a[0] == b[0] && b[0] == c[0] {
        lemma_text_carried(a.drop_first(), b.drop_first(), c.drop_first());
    }
}

/// Optional texts are ranked.
pub proof fn lemma_optional_text_ranked(
    a: Option<Seq<char>>,
    b: Option<Seq<char>>,
    c: Option<Seq<char>>,
)
    ensures
        mirrored(optional_text_relation(a, b), optional_text_relation(b, a)),
        carried(
            optional_text_relation(a, b),
            optional_text_relation(b, c),
            optional_text_relation(a, c),
        ),
{
    if a is Some && b is Some {
        lemma_text_mirrored(a.unwrap(), b.unwrap());
        if c is Some {
            lemma_text_carried(a.unwrap(), b.unwrap(), c.unwrap());
        }
    }
}

/// Numbers are ranked.
pub proof fn lemma_number_ranked(a: int, b: int, c: int)
    ensures
        mirrored(number_relation(a, b), number_relation(b, a)),
        carried(number_relation(a, b), number_relation(b, c), number_relation(a, c)),
{
}

/// Optional numbers are ranked.
pub proof fn lemma_optional_number_ranked(a: Option<u32>, b: Option<u32>, c: Option<u32>)
    ensures
        mirrored(optional_number_relation(a, b), optional_number_relation(b, a)),
        carried(
            optional_number_relation(a, b),
            optional_number_relation(b, c),
            optional_number_relation(a, c),
        ),
{
}

/// Moments are ranked.
pub proof fn lemma_moment_ranked(a: Timestamp, b: Timestamp, c: Timestamp)
    ensures
        mirrored(moment_relation(a, b), moment_relation(b, a)),
        carried(moment_relation(a, b), moment_relation(b, c), moment_relation(a, c)),
{
}

/// Optional moments are ranked.
pub proof fn lemma_optional_moment_ranked(
    a: Option<Timestamp>,
    b: Option<Timestamp>,
    c: Option<Timestamp>,
)
    ensures
        mirrored(optional_moment_relation(a, b), optional_moment_relation(b, a)),
        carried(
            optional_moment_relation(a, b),
            optional_moment_relation(b, c),
            optional_moment_relation(a, c),
        ),
{
    if a is Some && b is Some && c is Some {
        lemma_moment_ranked(a.unwrap(), b.unwrap(), c.unwrap());
    }
}

/// How two optional lengths of time stand to each other: an absent one comes
/// first, and a shorter one before a longer.
pub open spec fn optional_length_relation(a: Option<Duration>, b: Option<Duration>) -> Relation {
    match (a, b) {
        (None, None) => Relation::Equal,
        (None, Some(_)) => Relation::Less,
        (Some(_), None) => Relation::Greater,
        (Some(x), Some(y)) => if x.is_less(y) {
            Relation::Less
        } else if y.is_less(x) {
            Relation::Greater
        } else {
            Relation::Equal
        },
    }
}

/// Optional lengths of time are ranked.
pub proof fn lemma_optional_length_ranked(
    a: Option<Duration>,
    b: Option<Duration>,
    c: Option<Duration>,
)
    ensures
        mirrored(optional_length_relation(a, b), optional_length_relation(b, a)),
        carried(
            optional_length_relation(a, b),
            optional_length_relation(b, c),
            optional_length_relation(a, c),
        ),
{
}

} // verus!
