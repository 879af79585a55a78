//! Ordering lists of items by one or more of their fields.

use vstd::prelude::*;
use crate::error::{Error, ErrorView};
use crate::ranking::{carried, mirrored};
use crate::timestamp::Timestamp;
use crate::text::{
    chars_of, owned, push_str, spells, split, split_on, string_of, texts, trim, trimmed,
};

verus! {

/// How one value stands to another in an order.
#[derive(Debug, Clone, Copy, PartialEq, Eq, Structural)]
pub enum Relation {
    /// The first comes before the second.
    Less,
    /// Neither comes before the other.
    Equal,
    /// The first comes after the second.
    Greater,
}

/// The direction in which to sort.
#[derive(Debug, Clone, Copy, PartialEq, Eq, Structural)]
pub enum Order {
    /// Smallest first.
    Asc,
    /// Largest first.
    Desc,
}

/// The direction that a word names: `asc` or `a`, `desc` or `d`.
pub open spec fn order_named(s: Seq<char>) -> Option<Order> {
    if s == "asc"@ || s == "a"@ {
        Some(Order::Asc)
    } else if s == "desc"@ || s == "d"@ {
        Some(Order::Desc)
    } else {
        None
    }
}

impl Order {
    /// The direction used where none is given: ascending.
    pub fn default() -> (r: Order)
        ensures
            r == Order::Asc,
    {
        Order::Asc
    }

    /// The word for the direction.
    pub open spec fn text(self) -> Seq<char> {
        match self {
            Order::Asc => "asc"@,
            Order::Desc => "desc"@,
        }
    }

    /// Reads a direction from its word.
    pub fn from_str(s: &str) -> (r: Result<Order, Error>)
        ensures
            match r {
                Ok(o) => order_named(s@) == Some(o),
                Err(e) => order_named(s@) is None && e@ == ErrorView::UnrecognizedSortOrder(s@),
            },
    {
        let v = chars_of(s);
        if spells(&v, "asc") || spells(&v, "a") {
            Ok(Order::Asc)
        } else if spells(&v, "desc") || spells(&v, "d") {
            Ok(Order::Desc)
        } else {
            Err(Error::UnrecognizedSortOrder(string_of(&v)))
        }
    }

    /// The word for the direction.
    pub fn to_string(&self) -> (r: String)
        ensures
            r@ == self.text(),
    {
        match self {
            Order::Asc => owned("asc"),
            Order::Desc => owned("desc"),
        }
    }
}

/// How two texts stand to each other, character by character from the
/// front; a text comes before every text that it is a proper prefix of.
pub open spec fn text_relation(a: Seq<char>, b: Seq<char>) -> Relation
    decreases a.len(),
{
    if a.len() == 0 {
        if b.len() == 0 {
            Relation::Equal
        } else {
            Relation::Less
        }
    } else if b.len() == 0 {
        Relation::Greater
    } else if a[0] < b[0] {
        Relation::Less
    } else if a[0] > b[0] {
        Relation::Greater
    } else {
        text_relation(a.drop_first(), b.drop_first())
    }
}

/// How two numbers stand to each other.
pub open spec fn number_relation(a: int, b: int) -> Relation {
    if a < b {
        Relation::Less
    } else if a > b {
        Relation::Greater
    } else {
        Relation::Equal
    }
}

proof fn lemma_text_relation_skip(a: Seq<char>, b: Seq<char>, i: int)
    requires
        0 <= i <= a.len(),
        i <= b.len(),
        forall|k: int| 0 <= k < i ==> a[k] == b[k],
    ensures
        text_relation(a, b) == text_relation(a.skip(i), b.skip(i)),
    decreases i,
{
    if i == 0 {
        assert(a.skip(0) == a);
        assert(b.skip(0) == b);
    } else {
        assert(a[0] == b[0]);
        let x = a.drop_first();
        let y = b.drop_first();
        assert forall|k: int| 0 <= k < i - 1 implies x[k] == y[k] by {
            assert(x[k] == a[k + 1]);
            assert(y[k] == b[k + 1]);
        }
        lemma_text_relation_skip(x, y, i - 1);
        assert(x.skip(i - 1) == a.skip(i));
        assert(y.skip(i - 1) == b.skip(i));
    }
}

/// Tells how two texts stand to each other.
pub fn text_order(a: &str, b: &str) -> (r: Relation)
    ensures
        r == text_relation(a@, b@),
{
    let x = chars_of(a);
    let y = chars_of(b);
    let mut i: usize = 0;
    while i < x.len() && i < y.len()
        invariant
            i <= x.len(),
            i <= y.len(),
            x@ == a@,
            y@ == b@,
            forall|k: int| 0 <= k < i ==> x@[k] == y@[k],
        decreases x.len() - i,
    {
        proof {
            lemma_text_relation_skip(x@, y@, i as int);
            assert(x@.skip(i as int)[0] == x@[i as int]);
            assert(y@.skip(i as int)[0] == y@[i as int]);
        }
        if x[i] < y[i] {
            return Relation::Less;
        }
        if x[i] > y[i] {
            return Relation::Greater;
        }
        i = i + 1;
    }
    proof {
        lemma_text_relation_skip(x@, y@, i as int);
    }
    if i < y.len() {
        Relation::Less
    } else if i < x.len() {
        Relation::Greater
    } else {
        Relation::Equal
    }
}

/// Tells how two optional texts stand to each other.
pub fn optional_text_order(a: Option<&str>, b: Option<&str>) -> (r: Relation)
    ensures
        r == match (a, b) {
            (None, None) => Relation::Equal,
            (None, Some(_)) => Relation::Less,
            (Some(_), None) => Relation::Greater,
            (Some(x), Some(y)) => text_relation(x@, y@),
        },
{
    match (a, b) {
        (None, None) => Relation::Equal,
        (None, Some(_)) => Relation::Less,
        (Some(_), None) => Relation::Greater,
        (Some(x), Some(y)) => text_order(x, y),
    }
}

/// Tells how two numbers stand to each other.
pub fn number_order(a: u64, b: u64) -> (r: Relation)
    ensures
        r == number_relation(a as int, b as int),
{
    if a < b {
        Relation::Less
    } else if a > b {
        Relation::Greater
    } else {
        Relation::Equal
    }
}

/// Orders two values of one type by one of their fields.
pub trait Comparator: Sized {
    /// The type of the values that are ordered.
    type Type;

    /// How `a` stands to `b` by the field that `self` selects.
    spec fn relation(&self, a: &Self::Type, b: &Self::Type) -> Relation;

    /// The field that a name selects, or the fault for an unknown name.
    spec fn named(s: Seq<char>) -> Result<Self, ErrorView>;

    /// The name under which the field is written.
    spec fn name(&self) -> Seq<char>;

    /// Tells how `a` stands to `b` by the field that `self` selects.
    fn cmp(&self, a: &Self::Type, b: &Self::Type) -> (r: Relation)
        ensures
            r == self.relation(a, b),
    ;

    /// Reads a field from its name.
    fn from_str(s: &str) -> (r: Result<Self, Error>)
        ensures
            match r {
                Ok(c) => Self::named(s@) == Ok::<Self, ErrorView>(c),
                Err(e) => Self::named(s@) == Err::<Self, ErrorView>(e@),
            },
    ;

    /// Writes the name of the field.
    fn to_string(&self) -> (r: String)
        ensures
            r@ == self.name(),
    ;

    /// The field ranks the values: any two compare, in either direction
    /// alike, and the verdicts on three values fit together.
    proof fn lemma_ranking(&self, a: &Self::Type, b: &Self::Type, c: &Self::Type)
        ensures
            mirrored(self.relation(a, b), self.relation(b, a)),
            carried(self.relation(a, b), self.relation(b, c), self.relation(a, c)),
    ;
}

/// How to sort a list: by a first field in a direction, then, among items
/// that the first does not tell apart, by a second, and so on.
#[derive(Debug, Clone, PartialEq)]
pub struct SortSpec<C> {
    keys: Vec<(C, Order)>,
}

/// How `a` stands to `b` under the keys from `from` on: the verdict of the
/// first key that tells them apart, or `Equal` where none does. A descending
/// key asks how `b` stands to `a`.
pub open spec fn keys_relation<C: Comparator>(
    keys: Seq<(C, Order)>,
    from: int,
    a: &C::Type,
    b: &C::Type,
) -> Relation
    decreases keys.len() - from,
{
    if from < 0 || from >= keys.len() {
        Relation::Equal
    } else {
        let verdict = match keys[from].1 {
            Order::Asc => keys[from].0.relation(a, b),
            Order::Desc => keys[from].0.relation(b, a),
        };
        if verdict != Relation::Equal {
            verdict
        } else {
            keys_relation(keys, from + 1, a, b)
        }
    }
}

/// `keys_relation` from a machine index on.
pub open spec fn keys_relation_from<C: Comparator>(
    keys: Seq<(C, Order)>,
    from: usize,
    a: &C::Type,
    b: &C::Type,
) -> Relation {
    keys_relation(keys, from as int, a, b)
}

/// Whether the item that stood at `first` in the list as given may stand
/// directly before the one that stood at `second`: where the two keep
/// their order, the first must not be greater; where they swap, the one
/// that moved back must be greater.
pub open spec fn may_precede<C: Comparator>(
    keys: Seq<(C, Order)>,
    items: Seq<C::Type>,
    first: int,
    second: int,
) -> bool {
    if first < second {
        keys_relation(keys, 0, &items[first], &items[second]) != Relation::Greater
    } else {
        keys_relation(keys, 0, &items[second], &items[first]) == Relation::Greater
    }
}

/// Whether the items at `k` and behind it, in a list arranged by `places`,
/// are in order.
pub open spec fn pair_in_order<C: Comparator>(
    keys: Seq<(C, Order)>,
    items: Seq<C::Type>,
    places: Seq<int>,
    k: int,
) -> bool {
    may_precede(keys, items, places[k], places[k + 1])
}

/// Whether `places` lists each index below `n` exactly once.
pub open spec fn is_arrangement(places: Seq<int>, n: int) -> bool {
    &&& places.len() == n
    &&& forall|k: int| 0 <= k < n ==> 0 <= #[trigger] places[k] < n
    &&& forall|j: int, k: int| 0 <= j < k < n ==> places[j] != places[k]
}

/// Whether `sorted` is `items` put in order under `keys`, with `places`
/// telling where in `items` each item of `sorted` stood: the same items, each
/// once, and every neighbouring pair in order, items that the keys do not
/// tell apart keeping the order they came in.
pub open spec fn is_sorted_by<C: Comparator>(
    keys: Seq<(C, Order)>,
    items: Seq<C::Type>,
    sorted: Seq<C::Type>,
    places: Seq<int>,
) -> bool {
    &&& sorted.len() == items.len()
    &&& is_arrangement(places, items.len() as int)
    &&& forall|k: int| 0 <= k < sorted.len() ==> #[trigger] sorted[k] == items[places[k]]
    &&& forall|k: int| 0 <= k < sorted.len() - 1 ==> #[trigger] pair_in_order(keys, items, places, k)
}

impl<C: Comparator> SortSpec<C> {
    /// The keys, first to last.
    pub closed spec fn keys(&self) -> Seq<(C, Order)> {
        self.keys@
    }

    /// How `a` stands to `b` under this specification.
    pub open spec fn relation(&self, a: &C::Type, b: &C::Type) -> Relation {
        keys_relation(self.keys(), 0, a, b)
    }

    /// A specification with one key.
    pub fn new(comparator: C, order: Order) -> (r: Self)
        ensures
            r.keys() == seq![(comparator, order)],
    {
        let mut keys: Vec<(C, Order)> = Vec::new();
        keys.push((comparator, order));
        SortSpec { keys }
    }

    /// The specification with one more key, used where all the others tie.
    pub fn and_then(self, comparator: C, order: Order) -> (r: Self)
        ensures
            r.keys() == self.keys().push((comparator, order)),
    {
        let mut keys = self.keys;
        keys.push((comparator, order));
        SortSpec { keys }
    }

    /// Tells how `a` stands to `b` under this specification.
    pub fn compare(&self, a: &C::Type, b: &C::Type) -> (r: Relation)
        ensures
            r == self.relation(a, b),
    {
        let mut i: usize = 0;
        while i < self.keys.len()
            invariant
                i <= self.keys.len(),
                keys_relation(self.keys@, 0, a, b) == keys_relation_from(self.keys@, i, a, b),
            decreases self.keys.len() - i,
        {
            let verdict = match self.keys[i].1 {
                Order::Asc => self.keys[i].0.cmp(a, b),
                Order::Desc => self.keys[i].0.cmp(b, a),
            };
            match verdict {
                Relation::Equal => {},
                _ => {
                    return verdict;
                },
            }
            i = i + 1;
        }
        Relation::Equal
    }
}

impl<C: Comparator> SortSpec<C> {
    /// Sorts `items` by this specification. Items that the specification does
    /// not tell apart keep their order.
    #[verifier::loop_isolation(false)]
    pub fn sort(&self, items: Vec<C::Type>) -> (r: Vec<C::Type>)
        ensures
            exists|places: Seq<int>| is_ordered_by(self.keys(), items@, r@, places),
    {
        let ghost given = items@;
        let ghost keys = self.keys();
        let mut v = items;
        let n = v.len();
        let ghost mut places: Seq<int> = Seq::new(n as nat, |k: int| k);
        let mut i: usize = 0;
        while i < n
            invariant
                i <= n,
                v.len() == n,
                sorted_upto(keys, given, v@, places, i as int),
            decreases n - i,
        {
            let ghost before = v@;
            let ghost old_places = places;
            let x = v.remove(i);
            assert(x == given[i as int]);
            let ghost rest = v@;
            let mut j: usize = i;
            let mut searching = true;
            while searching && j > 0
                invariant
                    j <= i,
                    v@ == rest,
                    forall|k: int|
                        j <= k < i ==> keys_relation(keys, 0, &#[trigger] rest[k], &x)
                            == Relation::Greater,
                    !searching ==> j > 0 && keys_relation(keys, 0, &rest[j - 1], &x)
                        != Relation::Greater,
                decreases j + (if searching { 1int } else { 0int }),
            {
                let verdict = self.compare(&v[j - 1], &x);
                if verdict == Relation::Greater {
                    j = j - 1;
                } else {
                    searching = false;
                }
            }
            v.insert(j, x);
            proof {
                places = old_places.remove(i as int).insert(j as int, i as int);
                assert forall|k: int| j <= k < i implies keys_relation(
                    keys,
                    0,
                    &#[trigger] before[k],
                    &given[i as int],
                ) == Relation::Greater by {
                    assert(rest[k] == before[k]);
                }
                if j > 0 {
                    assert(rest[j - 1] == before[j - 1]);
                }
                lemma_insertion(keys, given, before, old_places, i as int, j as int);
            }
            i = i + 1;
        }
        proof {
            assert(is_sorted_by(keys, given, v@, places));
            lemma_may_precede_transitive(keys, given);
            assert forall|i: int, j: int| 0 <= i < j < v@.len() implies #[trigger] pair_apart_in_order(
                keys,
                given,
                places,
                i,
                j,
            ) by {
                lemma_sorted_all_pairs(keys, given, v@, places, i, j);
            }
            assert(is_ordered_by(keys, given, v@, places));
        }
        v
    }
}

/// Keys rank the values as their fields do: the verdict of the first key
/// that tells two values apart is alike in either direction, and the verdicts
/// on three values fit together.
pub proof fn lemma_keys_ranking<C: Comparator>(
    keys: Seq<(C, Order)>,
    from: int,
    a: &C::Type,
    b: &C::Type,
    c: &C::Type,
)
    requires
        0 <= from,
    ensures
        mirrored(keys_relation(keys, from, a, b), keys_relation(keys, from, b, a)),
        carried(
            keys_relation(keys, from, a, b),
            keys_relation(keys, from, b, c),
            keys_relation(keys, from, a, c),
        ),
    decreases keys.len() - from,
{
    if from < keys.len() {
        let field = keys[from].0;
        field.lemma_ranking(a, b, c);
        field.lemma_ranking(c, b, a);
        field.lemma_ranking(b, c, a);
        field.lemma_ranking(a, c, b);
        lemma_keys_ranking(keys, from + 1, a, b, c);
    }
}

/// Under any keys, standing before is carried along among the items of any
/// list.
pub proof fn lemma_may_precede_transitive<C: Comparator>(keys: Seq<(C, Order)>, items: Seq<C::Type>)
    ensures
        may_precede_is_transitive(keys, items),
{
    assert forall|a: int, b: int, c: int|
        0 <= a < items.len() && 0 <= b < items.len() && 0 <= c < items.len() && #[trigger] may_precede(
            keys,
            items,
            a,
            b,
        ) && #[trigger] may_precede(keys, items, b, c) implies may_precede(keys, items, a, c) by {
        lemma_keys_ranking(keys, 0, &items[a], &items[b], &items[c]);
        lemma_keys_ranking(keys, 0, &items[b], &items[c], &items[a]);
        lemma_keys_ranking(keys, 0, &items[a], &items[c], &items[b]);
    }
}

/// Whether the items at `i` and at `j` behind it, in a list arranged by
/// `places`, are in order.
pub open spec fn pair_apart_in_order<C: Comparator>(
    keys: Seq<(C, Order)>,
    items: Seq<C::Type>,
    places: Seq<int>,
    i: int,
    j: int,
) -> bool {
    may_precede(keys, items, places[i], places[j])
}

/// Whether `sorted` is `items` in order under `keys`, with `places` telling
/// where in `items` each item of `sorted` stood: the same items, each once,
/// and every item in order with every item behind it. Of two items that the
/// keys do not tell apart, the one that came first comes first.
pub open spec fn is_ordered_by<C: Comparator>(
    keys: Seq<(C, Order)>,
    items: Seq<C::Type>,
    sorted: Seq<C::Type>,
    places: Seq<int>,
) -> bool {
    &&& is_sorted_by(keys, items, sorted, places)
    &&& forall|i: int, j: int|
        0 <= i < j < sorted.len() ==> #[trigger] pair_apart_in_order(keys, items, places, i, j)
}

/// Whether, among the items of a list, standing before is carried along:
/// where one item may stand before a second and the second before a third,
/// the first may stand before the third. It is so wherever the keys order
/// the items as a ranking with ties does.
pub open spec fn may_precede_is_transitive<C: Comparator>(
    keys: Seq<(C, Order)>,
    items: Seq<C::Type>,
) -> bool {
    forall|a: int, b: int, c: int|
        0 <= a < items.len() && 0 <= b < items.len() && 0 <= c < items.len() && #[trigger] may_precede(
            keys,
            items,
            a,
            b,
        ) && #[trigger] may_precede(keys, items, b, c) ==> may_precede(keys, items, a, c)
}

/// In a sorted list not only neighbours are in order but every two items,
/// where standing before is carried along.
pub proof fn lemma_sorted_all_pairs<C: Comparator>(
    keys: Seq<(C, Order)>,
    items: Seq<C::Type>,
    sorted: Seq<C::Type>,
    places: Seq<int>,
    i: int,
    j: int,
)
    requires
        is_sorted_by(keys, items, sorted, places),
        may_precede_is_transitive(keys, items),
        0 <= i < j < sorted.len(),
    ensures
        may_precede(keys, items, places[i], places[j]),
    decreases j - i,
{
    assert(pair_in_order(keys, items, places, j - 1));
    if i < j - 1 {
        lemma_sorted_all_pairs(keys, items, sorted, places, i, j - 1);
        assert(0 <= places[i] < items.len());
        assert(0 <= places[j - 1] < items.len());
        assert(0 <= places[j] < items.len());
        assert(may_precede(keys, items, places[i], places[j - 1]));
        assert(may_precede(keys, items, places[j - 1], places[j]));
    }
}

/// Whether the first `i` items of `current` are the first `i` items of
/// `items` put in order, and the rest of `current` is the rest of `items`,
/// untouched.
pub open spec fn sorted_upto<C: Comparator>(
    keys: Seq<(C, Order)>,
    items: Seq<C::Type>,
    current: Seq<C::Type>,
    places: Seq<int>,
    i: int,
) -> bool {
    &&& current.len() == items.len()
    &&& is_arrangement(places, items.len() as int)
    &&& forall|k: int| 0 <= k < items.len() ==> #[trigger] current[k] == items[places[k]]
    &&& forall|k: int| 0 <= k < i ==> #[trigger] places[k] < i
    &&& forall|k: int| i <= k < items.len() ==> #[trigger] places[k] == k
    &&& forall|k: int| 0 <= k < i - 1 ==> #[trigger] pair_in_order(keys, items, places, k)
}

/// Where an index of the list after an insertion came from in the list before.
pub open spec fn came_from(k: int, i: int, j: int) -> int {
    if k < j {
        k
    } else if k == j {
        i
    } else if k <= i {
        k - 1
    } else {
        k
    }
}

/// One step of the sort: taking the item at `i` out and putting it in at
/// `j`, behind the last item that is not greater, keeps the list in order.
pub proof fn lemma_insertion<C: Comparator>(
    keys: Seq<(C, Order)>,
    items: Seq<C::Type>,
    before: Seq<C::Type>,
    old_places: Seq<int>,
    i: int,
    j: int,
)
    requires
        0 <= j <= i < items.len(),
        sorted_upto(keys, items, before, old_places, i),
        forall|k: int|
            j <= k < i ==> keys_relation(keys, 0, &#[trigger] before[k], &items[i])
                == Relation::Greater,
        j > 0 ==> keys_relation(keys, 0, &before[j - 1], &items[i]) != Relation::Greater,
    ensures
        sorted_upto(
            keys,
            items,
            before.remove(i).insert(j, items[i]),
            old_places.remove(i).insert(j, i),
            i + 1,
        ),
{
    let n = items.len() as int;
    let after = before.remove(i).insert(j, items[i]);
    let places = old_places.remove(i).insert(j, i);
    assert(old_places[i] == i);
    assert(before[i] == items[i]);
    assert forall|k: int| 0 <= k < n implies #[trigger] places[k] == old_places[came_from(
        k,
        i,
        j,
    )] by {}
    assert forall|k: int| 0 <= k < n implies #[trigger] after[k] == before[came_from(k, i, j)] by {}
    assert forall|k: int| 0 <= k < n implies 0 <= #[trigger] places[k] < n by {
        assert(places[k] == old_places[came_from(k, i, j)]);
    }
    assert forall|a: int, b: int| 0 <= a < b < n implies places[a] != places[b] by {
        let fa = came_from(a, i, j);
        let fb = came_from(b, i, j);
        assert(places[a] == old_places[fa]);
        assert(places[b] == old_places[fb]);
        assert(fa != fb);
        if fa < fb {
            assert(old_places[fa] != old_places[fb]);
        } else {
            assert(old_places[fb] != old_places[fa]);
        }
    }
    assert forall|k: int| 0 <= k < n implies #[trigger] after[k] == items[places[k]] by {
        let f = came_from(k, i, j);
        assert(after[k] == before[f]);
        assert(places[k] == old_places[f]);
        assert(before[f] == items[old_places[f]]);
    }
    assert forall|k: int| 0 <= k < i + 1 implies #[trigger] places[k] < i + 1 by {
        let f = came_from(k, i, j);
        assert(places[k] == old_places[f]);
        if f < i {
            assert(old_places[f] < i);
        }
    }
    assert forall|k: int| i + 1 <= k < n implies #[trigger] places[k] == k by {
        assert(places[k] == old_places[came_from(k, i, j)]);
    }
    assert forall|k: int| 0 <= k < i implies #[trigger] pair_in_order(keys, items, places, k) by {
        assert(places[k] == old_places[came_from(k, i, j)]);
        assert(places[k + 1] == old_places[came_from(k + 1, i, j)]);
        if k + 1 < j {
            assert(pair_in_order(keys, items, old_places, k));
        } else if k + 1 == j {
            assert(old_places[k] < i);
            assert(before[j - 1] == items[old_places[k]]);
        } else if k == j {
            assert(old_places[k] < i);
            assert(before[k] == items[old_places[k]]);
        } else {
            assert(pair_in_order(keys, items, old_places, k - 1));
        }
    }
}

/// The key that one piece of a sort text stands for: a field name, then
/// perhaps a colon and a direction. The piece is read without the white
/// space around it. More than one colon is a fault, named with the whole
/// text and the piece; then comes the field's own fault, then the
/// direction's.
pub open spec fn key_parsed<C: Comparator>(whole: Seq<char>, piece: Seq<char>) -> Result<
    (C, Order),
    ErrorView,
> {
    let parts = split_on(trimmed(piece), ':');
    if parts.len() > 2 {
        Err(ErrorView::TooManyComponentsInSortSpec(whole, piece))
    } else {
        match C::named(parts[0]) {
            Err(e) => Err(e),
            Ok(c) => if parts.len() == 2 {
                match order_named(parts[1]) {
                    Some(o) => Ok((c, o)),
                    None => Err(ErrorView::UnrecognizedSortOrder(parts[1])),
                }
            } else {
                Ok((c, Order::Asc))
            },
        }
    }
}

/// The keys that the pieces stand for, or the fault of the first faulty piece.
pub open spec fn keys_parsed<C: Comparator>(whole: Seq<char>, pieces: Seq<Seq<char>>) -> Result<
    Seq<(C, Order)>,
    ErrorView,
>
    decreases pieces.len(),
{
    if pieces.len() == 0 {
        Ok(Seq::empty())
    } else {
        match keys_parsed::<C>(whole, pieces.drop_last()) {
            Err(e) => Err(e),
            Ok(keys) => match key_parsed::<C>(whole, pieces.last()) {
                Err(e) => Err(e),
                Ok(k) => Ok(keys.push(k)),
            },
        }
    }
}

/// The keys that a sort text stands for: its pieces between commas, each
/// one key.
pub open spec fn sort_spec_parsed<C: Comparator>(s: Seq<char>) -> Result<
    Seq<(C, Order)>,
    ErrorView,
> {
    keys_parsed::<C>(s, split_on(s, ','))
}

/// A fault among the first pieces is the fault of the whole list.
pub proof fn lemma_keys_fault<C: Comparator>(whole: Seq<char>, pieces: Seq<Seq<char>>, upto: int)
    requires
        0 <= upto <= pieces.len(),
        keys_parsed::<C>(whole, pieces.take(upto)) is Err,
    ensures
        keys_parsed::<C>(whole, pieces) == keys_parsed::<C>(whole, pieces.take(upto)),
    decreases pieces.len() - upto,
{
    if upto < pieces.len() {
        assert(pieces.take(upto + 1).drop_last() == pieces.take(upto));
        lemma_keys_fault::<C>(whole, pieces, upto + 1);
    } else {
        assert(pieces.take(upto) == pieces);
    }
}

/// How one key is written: the field's name, and for a descending key a
/// colon and the direction.
pub open spec fn key_text<C: Comparator>(k: (C, Order)) -> Seq<char> {
    if k.1 == Order::Asc {
        k.0.name()
    } else {
        k.0.name().push(':') + k.1.text()
    }
}

/// How keys are written: one after the other, with commas between them.
pub open spec fn keys_text<C: Comparator>(keys: Seq<(C, Order)>) -> Seq<char>
    decreases keys.len(),
{
    if keys.len() == 0 {
        Seq::empty()
    } else if keys.len() == 1 {
        key_text(keys[0])
    } else {
        keys_text(keys.drop_last()).push(',') + key_text(keys.last())
    }
}

impl<C: Comparator> SortSpec<C> {
    /// Reads a specification such as `priority,project:desc`.
    pub fn from_str(s: &str) -> (r: Result<Self, Error>)
        ensures
            match r {
                Ok(spec) => sort_spec_parsed::<C>(s@) == Ok::<Seq<(C, Order)>, ErrorView>(
                    spec.keys(),
                ),
                Err(e) => sort_spec_parsed::<C>(s@) == Err::<Seq<(C, Order)>, ErrorView>(e@),
            },
    {
        let whole = chars_of(s);
        let pieces = split(&whole, ',');
        let ghost all = split_on(s@, ',');
        let mut keys: Vec<(C, Order)> = Vec::new();
        let mut i: usize = 0;
        assert(all.take(0) == Seq::<Seq<char>>::empty());
        while i < pieces.len()
            invariant
                i <= pieces.len(),
                whole@ == s@,
                texts(pieces@) == all,
                all == split_on(s@, ','),
                keys_parsed::<C>(s@, all.take(i as int)) == Ok::<Seq<(C, Order)>, ErrorView>(
                    keys@,
                ),
            decreases pieces.len() - i,
        {
            let ghost piece = all[i as int];
            assert(piece == pieces@[i as int]@);
            let ghost next = all.take(i + 1);
            assert(next.drop_last() == all.take(i as int));
            assert(next.last() == piece);
            let parts = split(&trim(&pieces[i]), ':');
            assert(texts(parts@).len() == parts@.len());
            if parts.len() > 2 {
                proof {
                    lemma_keys_fault::<C>(s@, all, i + 1);
                }
                return Err(
                    Error::TooManyComponentsInSortSpec(string_of(&whole), string_of(&pieces[i])),
                );
            }
            assert(texts(parts@)[0] == parts@[0]@);
            let name = string_of(&parts[0]);
            let comparator = match C::from_str(name.as_str()) {
                Ok(c) => c,
                Err(e) => {
                    proof {
                        lemma_keys_fault::<C>(s@, all, i + 1);
                    }
                    return Err(e);
                },
            };
            let order = if parts.len() == 2 {
                assert(texts(parts@)[1] == parts@[1]@);
                let word = string_of(&parts[1]);
                match Order::from_str(word.as_str()) {
                    Ok(o) => o,
                    Err(e) => {
                        proof {
                            lemma_keys_fault::<C>(s@, all, i + 1);
                        }
                        return Err(e);
                    },
                }
            } else {
                Order::default()
            };
            keys.push((comparator, order));
            i = i + 1;
        }
        assert(all.take(pieces.len() as int) == all);
        Ok(SortSpec { keys })
    }

    /// Writes the specification as `from_str` reads it, leaving out the
    /// direction of ascending keys.
    pub fn to_string(&self) -> (r: String)
        ensures
            r@ == keys_text(self.keys()),
    {
        let mut out: Vec<char> = Vec::new();
        let mut i: usize = 0;
        assert(self.keys@.take(0) == Seq::<(C, Order)>::empty());
        while i < self.keys.len()
            invariant
                i <= self.keys.len(),
                out@ == keys_text(self.keys@.take(i as int)),
            decreases self.keys.len() - i,
        {
            let ghost next = self.keys@.take(i + 1);
            assert(next.drop_last() == self.keys@.take(i as int));
            assert(next.last() == self.keys@[i as int]);
            if i > 0 {
                out.push(',');
            }
            let name = self.keys[i].0.to_string();
            push_str(&mut out, name.as_str());
            match self.keys[i].1 {
                Order::Asc => {},
                Order::Desc => {
                    out.push(':');
                    let word = self.keys[i].1.to_string();
                    push_str(&mut out, word.as_str());
                },
            }
            assert(out@ == keys_text(next)) by {
                let k = self.keys@[i as int];
                let before = keys_text(self.keys@.take(i as int));
                if i == 0 {
                    assert(before.len() == 0);
                    assert(before + k.0.name() == k.0.name());
                    assert((before + k.0.name()).push(':') + k.1.text() == k.0.name().push(':')
                        + k.1.text());
                } else {
                    assert(before.push(',') + k.0.name() == before.push(',') + key_text(k)
                        || k.1 == Order::Desc);
                    assert((before.push(',') + k.0.name()).push(':') + k.1.text() == before.push(
                        ',',
                    ) + (k.0.name().push(':') + k.1.text()));
                }
            }
            i = i + 1;
        }
        assert(self.keys@.take(self.keys.len() as int) == self.keys@);
        string_of(&out)
    }
}

/// How two moments stand to each other: the earlier one comes first.
pub open spec fn moment_relation(a: Timestamp, b: Timestamp) -> Relation {
    if a.is_before(b) {
        Relation::Less
    } else if b.is_before(a) {
        Relation::Greater
    } else {
        Relation::Equal
    }
}

/// How two optional moments stand to each other.
pub open spec fn optional_moment_relation(a: Option<Timestamp>, b: Option<Timestamp>) -> Relation {
    match (a, b) {
        (None, None) => Relation::Equal,
        (None, Some(_)) => Relation::Less,
        (Some(_), None) => Relation::Greater,
        (Some(x), Some(y)) => moment_relation(x, y),
    }
}

/// Tells how two optional moments stand to each other.
pub fn optional_moment_order(a: Option<Timestamp>, b: Option<Timestamp>) -> (r: Relation)
    ensures
        r == optional_moment_relation(a, b),
{
    match (a, b) {
        (None, None) => Relation::Equal,
        (None, Some(_)) => Relation::Less,
        (Some(_), None) => Relation::Greater,
        (Some(x), Some(y)) => {
            if x.before(&y) {
                Relation::Less
            } else if y.before(&x) {
                Relation::Greater
            } else {
                Relation::Equal
            }
        },
    }
}

/// How two optional numbers stand to each other.
pub open spec fn optional_number_relation(a: Option<u32>, b: Option<u32>) -> Relation {
    match (a, b) {
        (None, None) => Relation::Equal,
        (None, Some(_)) => Relation::Less,
        (Some(_), None) => Relation::Greater,
        (Some(x), Some(y)) => number_relation(x as int, y as int),
    }
}

/// Tells how two optional numbers stand to each other.
pub fn optional_number_order(a: Option<u32>, b: Option<u32>) -> (r: Relation)
    ensures
        r == optional_number_relation(a, b),
{
    match (a, b) {
        (None, None) => Relation::Equal,
        (None, Some(_)) => Relation::Less,
        (Some(_), None) => Relation::Greater,
        (Some(x), Some(y)) => number_order(x as u64, y as u64),
    }
}

/// How two optional texts stand to each other.
pub open spec fn optional_text_relation(a: Option<Seq<char>>, b: Option<Seq<char>>) -> Relation {
    match (a, b) {
        (None, None) => Relation::Equal,
        (None, Some(_)) => Relation::Less,
        (Some(_), None) => Relation::Greater,
        (Some(x), Some(y)) => text_relation(x, y),
    }
}

} // verus!
