//! Lengths of time, and the compact way people write them: `1h30m`, `2d`.

use vstd::prelude::*;
use crate::error::{Error, ErrorView};
use crate::numbers::{
    decimal, decimal_text, digit_run, lemma_decimal_text, lemma_digit_run,
    lemma_padded_roundtrip, lemma_run_at_least, padded_decimal, parse_unsigned, parsed_unsigned,
};
use crate::text::{chars_of, is_digit, string_of, trim, trimmed};

verus! {

/// The seconds in a minute.
pub const MINUTE: i64 = 60;

/// The seconds in an hour.
pub const HOUR: i64 = 3600;

/// The seconds in a day.
pub const DAY: i64 = 86400;

/// The seconds in a week.
pub const WEEK: i64 = 604800;

/// A signed length of time: whole seconds and a part of a second in
/// nanoseconds. The two never differ in sign, and the part is less than a
/// second, so two lengths are equal exactly when both numbers are.
#[derive(Debug, Clone, Copy, PartialEq, Eq, Structural)]
pub struct Duration {
    secs: i64,
    nanos: i32,
}

/// Whether whole seconds and a sub-second part form a length of time.
pub open spec fn duration_parts_ok(secs: int, nanos: int) -> bool {
    &&& -1_000_000_000 < nanos < 1_000_000_000
    &&& secs > 0 ==> nanos >= 0
    &&& secs < 0 ==> nanos <= 0
}

impl Duration {
    /// The whole seconds of the length.
    pub closed spec fn seconds(self) -> int {
        self.secs as int
    }

    /// The part of a second, in nanoseconds.
    pub closed spec fn subsec(self) -> int {
        self.nanos as int
    }

    /// The invariant of the type.
    pub open spec fn wf(self) -> bool {
        duration_parts_ok(self.seconds(), self.subsec())
    }

    #[verifier::type_invariant]
    spec fn inv(self) -> bool {
        duration_parts_ok(self.secs as int, self.nanos as int)
    }

    /// Two lengths with the same seconds and the same sub-second part are one
    /// and the same.
    pub proof fn lemma_equal(self, other: Duration)
        requires
            self.seconds() == other.seconds(),
            self.subsec() == other.subsec(),
        ensures
            self == other,
    {
    }

    /// The empty length.
    pub fn zero() -> (r: Self)
        ensures
            r.seconds() == 0,
            r.subsec() == 0,
            r.wf(),
    {
        Duration { secs: 0, nanos: 0 }
    }

    /// A length of whole seconds.
    pub fn from_seconds(secs: i64) -> (r: Self)
        ensures
            r.seconds() == secs,
            r.subsec() == 0,
            r.wf(),
    {
        Duration { secs, nanos: 0 }
    }

    /// The length with these whole seconds and this sub-second part, if the two
    /// form one.
    pub fn from_parts(secs: i64, nanos: i32) -> (r: Option<Self>)
        ensures
            r is Some <==> duration_parts_ok(secs as int, nanos as int),
            r matches Some(d) ==> d.seconds() == secs && d.subsec() == nanos && d.wf(),
    {
        if -1_000_000_000 < nanos && nanos < 1_000_000_000 && (secs <= 0 || nanos >= 0) && (secs
            >= 0 || nanos <= 0) {
            Some(Duration { secs, nanos })
        } else {
            None
        }
    }

    /// The whole seconds of the length.
    pub fn whole_seconds(&self) -> (r: i64)
        ensures
            r == self.seconds(),
    {
        self.secs
    }

    /// The part of a second, in nanoseconds.
    pub fn subsec_nanoseconds(&self) -> (r: i32)
        ensures
            r == self.subsec(),
            self.wf(),
    {
        proof {
            use_type_invariant(self);
        }
        self.nanos
    }

    /// The length in nanoseconds.
    pub open spec fn total_nanos(self) -> int {
        self.seconds() * 1_000_000_000 + self.subsec()
    }

    /// The two lengths together; nothing where the whole seconds of the sum
    /// do not fit in 64 bits.
    pub fn checked_add(&self, other: &Duration) -> (r: Option<Duration>)
        ensures
            r matches Some(d) ==> d.total_nanos() == self.total_nanos() + other.total_nanos()
                && d.wf(),
            r is Some <==> i64::MIN * 1_000_000_000 - 999_999_999 <= self.total_nanos()
                + other.total_nanos() <= i64::MAX * 1_000_000_000 + 999_999_999,
    {
        proof {
            use_type_invariant(self);
            use_type_invariant(other);
        }
        let wide: i128 = self.secs as i128 + other.secs as i128;
        let mut nanos: i32 = self.nanos + other.nanos;
        let mut secs: i128 = wide;
        if nanos >= 1_000_000_000 {
            nanos = nanos - 1_000_000_000;
            secs = secs + 1;
        } else if nanos <= -1_000_000_000 {
            nanos = nanos + 1_000_000_000;
            secs = secs - 1;
        }
        if secs > 0 && nanos < 0 {
            secs = secs - 1;
            nanos = nanos + 1_000_000_000;
        } else if secs < 0 && nanos > 0 {
            secs = secs + 1;
            nanos = nanos - 1_000_000_000;
        }
        if secs < i64::MIN as i128 || secs > i64::MAX as i128 {
            return None;
        }
        Some(Duration { secs: secs as i64, nanos })
    }

    /// Whether `self` is shorter than `other`.
    pub open spec fn is_less(self, other: Duration) -> bool {
        self.seconds() < other.seconds() || (self.seconds() == other.seconds() && self.subsec()
            < other.subsec())
    }

    /// Whether `self` is shorter than `other`.
    pub fn less_than(&self, other: &Duration) -> (r: bool)
        ensures
            r == self.is_less(*other),
    {
        self.secs < other.secs || (self.secs == other.secs && self.nanos < other.nanos)
    }
}

/// The length of the longest prefix of `s` without a decimal digit.
pub open spec fn unit_run(s: Seq<char>) -> nat
    decreases s.len(),
{
    if s.len() > 0 && !is_digit(s[0]) {
        1 + unit_run(s.drop_first())
    } else {
        0
    }
}

/// `unit_run` is the index of the first digit.
pub proof fn lemma_unit_run(s: Seq<char>, k: int)
    requires
        0 <= k <= s.len(),
        forall|i: int| 0 <= i < k ==> !is_digit(#[trigger] s[i]),
        k < s.len() ==> is_digit(s[k]),
    ensures
        unit_run(s) == k,
    decreases k,
{
    if k > 0 {
        let t = s.drop_first();
        assert(!is_digit(s[0]));
        assert forall|i: int| 0 <= i < k - 1 implies !is_digit(#[trigger] t[i]) by {
            assert(t[i] == s[i + 1]);
        }
        lemma_unit_run(t, k - 1);
    }
}

/// A run is no longer than the text it is a prefix of.
pub proof fn lemma_unit_run_bound(s: Seq<char>)
    ensures
        unit_run(s) <= s.len(),
    decreases s.len(),
{
    if s.len() > 0 && !is_digit(s[0]) {
        lemma_unit_run_bound(s.drop_first());
    }
}

/// The components of a duration text that starts with a digit: each is a run
/// of digits (the amount) and the run of other characters behind it (the
/// unit).
///
/// The unit of every component but the last is taken without the white space
/// around it. The last component counts only if it has a unit, which is
/// taken as written. A text that does not start with a digit has no
/// components.
pub open spec fn duration_components(s: Seq<char>) -> Seq<(Seq<char>, Seq<char>)>
    decreases s.len(),
{
    let a = digit_run(s);
    let rest = s.skip(a as int);
    let u = unit_run(rest);
    let after = rest.skip(u as int);
    if a == 0 {
        Seq::empty()
    } else if after.len() == 0 {
        if u == 0 {
            Seq::empty()
        } else {
            seq![(s.take(a as int), rest.take(u as int))]
        }
    } else {
        proof {
            lemma_run_at_least(s, 0);
            lemma_unit_run_bound(rest);
        }
        seq![(s.take(a as int), trimmed(rest.take(u as int)))] + duration_components(after)
    }
}

/// What each pair of strings holds.
pub open spec fn pairs(v: Seq<(String, String)>) -> Seq<(Seq<char>, Seq<char>)> {
    v.map_values(|p: (String, String)| (p.0@, p.1@))
}

/// Where the scanner of a duration text stands.
enum DurationParserState {
    Begin,
    Amount,
    Unit,
}

/// Cuts a duration text into its components, amount and unit, in order.
///
/// Fails, with the text, when the text starts with something other than a
/// decimal digit.
pub fn parse_duration_components(s: &str) -> (r: Result<Vec<(String, String)>, Error>)
    ensures
        match r {
            Ok(v) => (s@.len() == 0 || is_digit(s@[0])) && pairs(v@) == duration_components(s@),
            Err(e) => s@.len() > 0 && !is_digit(s@[0]) && e@
                == ErrorView::DurationMustStartWithNumber(s@),
        },
{
    let v = chars_of(s);
    let n = v.len();
    let mut result: Vec<(String, String)> = Vec::new();
    let mut state = DurationParserState::Begin;
    let mut cur_amount: Vec<char> = Vec::new();
    let mut cur_unit: Vec<char> = Vec::new();
    // where the component being read starts, and where its unit starts
    let ghost mut j: int = 0;
    let ghost mut k: int = 0;
    let mut i: usize = 0;
    assert(pairs(result@) == Seq::<(Seq<char>, Seq<char>)>::empty());
    while i < n
        invariant
            i <= n,
            n == v.len(),
            v@ == s@,
            state is Begin ==> i == 0 && result@.len() == 0 && cur_amount@.len() == 0
                && cur_unit@.len() == 0,
            !(state is Begin) ==> {
                &&& 0 <= j < i
                &&& is_digit(v@[0])
                &&& duration_components(v@) == pairs(result@) + duration_components(v@.skip(j))
            },
            state is Amount ==> {
                &&& cur_amount@ == v@.subrange(j, i as int)
                &&& cur_unit@.len() == 0
                &&& forall|x: int| j <= x < i ==> is_digit(#[trigger] v@[x])
            },
            state is Unit ==> {
                &&& j < k < i
                &&& cur_amount@ == v@.subrange(j, k)
                &&& cur_unit@ == v@.subrange(k, i as int)
                &&& forall|x: int| j <= x < k ==> is_digit(#[trigger] v@[x])
                &&& forall|x: int| k <= x < i ==> !is_digit(#[trigger] v@[x])
            },
        decreases n - i,
    {
        let c = v[i];
        let is_num = '0' <= c && c <= '9';
        match state {
            DurationParserState::Begin => {
                if !is_num {
                    return Err(Error::DurationMustStartWithNumber(string_of(&v)));
                }
                cur_amount.push(c);
                state = DurationParserState::Amount;
                proof {
                    j = 0;
                    assert(v@.skip(0) == v@);
                    assert(cur_amount@ == v@.subrange(0, 1));
                    assert(pairs(result@) + duration_components(v@) == duration_components(v@));
                }
            },
            DurationParserState::Amount => {
                if is_num {
                    cur_amount.push(c);
                    assert(cur_amount@ == v@.subrange(j, i + 1));
                } else {
                    state = DurationParserState::Unit;
                    cur_unit.push(c);
                    proof {
                        k = i as int;
                        assert(cur_unit@ == v@.subrange(k, i + 1));
                    }
                }
            },
            DurationParserState::Unit => {
                if is_num {
                    let amount = string_of(&trim(&cur_amount));
                    let unit = string_of(&trim(&cur_unit));
                    proof {
                        let here = v@.skip(j);
                        assert forall|x: int| 0 <= x < k - j implies is_digit(
                            #[trigger] here[x],
                        ) by {
                            assert(here[x] == v@[x + j]);
                        }
                        assert(here[k - j] == v@[k]);
                        lemma_digit_run(here, k - j);
                        let rest = here.skip(k - j);
                        assert(rest == v@.skip(k));
                        assert forall|x: int| 0 <= x < i - k implies !is_digit(
                            #[trigger] rest[x],
                        ) by {
                            assert(rest[x] == v@[x + k]);
                        }
                        assert(rest[i - k] == v@[i as int]);
                        lemma_unit_run(rest, i - k);
                        let after = rest.skip(i - k);
                        assert(after == v@.skip(i as int));
                        assert(after.len() > 0);
                        assert(here.take(k - j) == cur_amount@);
                        assert(rest.take(i - k) == cur_unit@);
                        lemma_trim_digits(cur_amount@);
                        assert(duration_components(here) == seq![(cur_amount@, trimmed(cur_unit@))]
                            + duration_components(after));
                    }
                    let ghost before = result@;
                    result.push((amount, unit));
                    proof {
                        assert(pairs(result@) == pairs(before).push((cur_amount@, trimmed(cur_unit@))));
                        assert(pairs(before) + (seq![(cur_amount@, trimmed(cur_unit@))]
                            + duration_components(v@.skip(i as int))) == pairs(result@)
                            + duration_components(v@.skip(i as int)));
                        j = i as int;
                    }
                    cur_amount = Vec::new();
                    cur_unit = Vec::new();
                    cur_amount.push(c);
                    assert(cur_amount@ == v@.subrange(i as int, i + 1));
                    state = DurationParserState::Amount;
                } else {
                    cur_unit.push(c);
                    assert(cur_unit@ == v@.subrange(k, i + 1));
                }
            },
        }
        i = i + 1;
    }
    match state {
        DurationParserState::Begin => {
            assert(digit_run(v@) == 0);
        },
        DurationParserState::Amount => {
            proof {
                let here = v@.skip(j);
                assert forall|x: int| 0 <= x < n - j implies is_digit(#[trigger] here[x]) by {
                    assert(here[x] == v@[x + j]);
                }
                lemma_digit_run(here, n - j);
                let rest = here.skip(n - j);
                assert(rest.len() == 0);
                assert(unit_run(rest) == 0);
                assert(rest.skip(0).len() == 0);
                assert(duration_components(here) == Seq::<(Seq<char>, Seq<char>)>::empty());
                assert(pairs(result@) + duration_components(here) == pairs(result@));
            }
        },
        DurationParserState::Unit => {
            let amount = string_of(&cur_amount);
            let unit = string_of(&cur_unit);
            proof {
                let here = v@.skip(j);
                assert forall|x: int| 0 <= x < k - j implies is_digit(#[trigger] here[x]) by {
                    assert(here[x] == v@[x + j]);
                }
                assert(here[k - j] == v@[k]);
                lemma_digit_run(here, k - j);
                let rest = here.skip(k - j);
                assert(rest == v@.skip(k));
                assert forall|x: int| 0 <= x < n - k implies !is_digit(#[trigger] rest[x]) by {
                    assert(rest[x] == v@[x + k]);
                }
                lemma_unit_run(rest, n - k);
                let after = rest.skip(n - k);
                assert(after.len() == 0);
                assert(here.take(k - j) == cur_amount@);
                assert(rest.take(n - k) == cur_unit@);
                assert(duration_components(here) == seq![(cur_amount@, cur_unit@)]);
            }
            let ghost before = result@;
            result.push((amount, unit));
            proof {
                assert(pairs(result@) == pairs(before).push((cur_amount@, cur_unit@)));
                assert(pairs(before) + seq![(cur_amount@, cur_unit@)] == pairs(result@));
            }
        },
    }
    Ok(result)
}

/// White space is no digit, so trimming leaves a text of digits as it is.
pub proof fn lemma_trim_digits(s: Seq<char>)
    requires
        forall|i: int| 0 <= i < s.len() ==> is_digit(#[trigger] s[i]),
    ensures
        trimmed(s) == s,
{
    let p = |c: char| crate::text::is_space(c);
    if s.len() > 0 {
        assert(is_digit(s[0]));
        assert(is_digit(s[s.len() - 1]));
        assert(!p(s[0]));
        assert(!p(s.last()));
    }
    assert(crate::text::drop_leading(s, p) == s);
    assert(crate::text::drop_trailing(s, p) == s);
}

/// The seconds in one unit of a duration text: a week, a day, an hour, a
/// minute or a second. Any other text is no unit.
pub open spec fn unit_seconds(u: Seq<char>) -> Option<int> {
    if u == seq!['w'] {
        Some(604800int)
    } else if u == seq!['d'] {
        Some(86400int)
    } else if u == seq!['h'] {
        Some(3600int)
    } else if u == seq!['m'] {
        Some(60int)
    } else if u == seq!['s'] {
        Some(1int)
    } else {
        None
    }
}

/// The seconds that one component stands for, or what is wrong with it: its
/// amount first, then its unit.
pub open spec fn component_seconds(c: (Seq<char>, Seq<char>)) -> Result<int, ErrorView> {
    match parsed_unsigned(c.0, i32::MAX as nat) {
        Err(e) => Err(ErrorView::InvalidDurationAmount(c.0, e)),
        Ok(n) => match unit_seconds(c.1) {
            None => Err(ErrorView::InvalidDurationUnit(c.1)),
            Some(k) => Ok(n * k),
        },
    }
}

/// The seconds of each component, or the fault of the first faulty one.
pub open spec fn components_seconds(comps: Seq<(Seq<char>, Seq<char>)>) -> Result<
    Seq<int>,
    ErrorView,
>
    decreases comps.len(),
{
    if comps.len() == 0 {
        Ok(Seq::empty())
    } else {
        match components_seconds(comps.drop_last()) {
            Err(e) => Err(e),
            Ok(values) => match component_seconds(comps.last()) {
                Err(e) => Err(e),
                Ok(v) => Ok(values.push(v)),
            },
        }
    }
}

/// The sum of the first `upto` values.
pub open spec fn sum_upto(values: Seq<int>, upto: int) -> int
    decreases upto,
{
    if upto <= 0 {
        0
    } else {
        sum_upto(values, upto - 1) + values[upto - 1]
    }
}

/// The total of the components' seconds, or the first component with which
/// the running total no longer fits in 64 bits.
pub open spec fn summed(
    comps: Seq<(Seq<char>, Seq<char>)>,
    values: Seq<int>,
    upto: int,
) -> Result<int, ErrorView>
    decreases upto,
{
    if upto <= 0 {
        Ok(0)
    } else {
        match summed(comps, values, upto - 1) {
            Err(e) => Err(e),
            Ok(total) => if total + values[upto - 1] > i64::MAX {
                Err(ErrorView::InvalidDuration(comps[upto - 1].0, comps[upto - 1].1))
            } else {
                Ok(total + values[upto - 1])
            },
        }
    }
}

/// The whole seconds that a duration text stands for, or the first fault
/// found in it.
///
/// The text must start with a digit, unless it is empty. Then every
/// component is checked, in order, amount before unit. Then the
/// components are added up, in order.
pub open spec fn parsed_duration(s: Seq<char>) -> Result<int, ErrorView> {
    if s.len() > 0 && !is_digit(s[0]) {
        Err(ErrorView::DurationMustStartWithNumber(s))
    } else {
        let comps = duration_components(s);
        match components_seconds(comps) {
            Err(e) => Err(e),
            Ok(values) => summed(comps, values, comps.len() as int),
        }
    }
}

/// The seconds in the unit that `u` names, if it names one.
fn seconds_of_unit(u: &Vec<char>) -> (r: Option<i64>)
    ensures
        match r {
            Some(k) => unit_seconds(u@) == Some(k as int),
            None => unit_seconds(u@) is None,
        },
{
    if u.len() != 1 {
        return None;
    }
    let c = u[0];
    assert(u@ == seq![c]);
    if c == 'w' {
        Some(WEEK)
    } else if c == 'd' {
        Some(DAY)
    } else if c == 'h' {
        Some(HOUR)
    } else if c == 'm' {
        Some(MINUTE)
    } else if c == 's' {
        Some(1)
    } else {
        None
    }
}

impl Duration {
    /// Reads a duration such as `1h30m` or `2d`.
    ///
    /// The result is a whole number of seconds: the sum, over the components
    /// of the text, of amount times unit.
    pub fn from_str(s: &str) -> (r: Result<Duration, Error>)
        ensures
            match r {
                Ok(d) => parsed_duration(s@) == Ok::<int, ErrorView>(d.seconds()) && d.subsec()
                    == 0,
                Err(e) => parsed_duration(s@) == Err::<int, ErrorView>(e@),
            },
    {
        let comps = match parse_duration_components(s) {
            Ok(comps) => comps,
            Err(e) => {
                return Err(e);
            },
        };
        let ghost texts = duration_components(s@);
        let mut values: Vec<i64> = Vec::new();
        let mut i: usize = 0;
        assert(texts.take(0) == Seq::<(Seq<char>, Seq<char>)>::empty());
        assert(values@.map_values(|v: i64| v as int) == Seq::<int>::empty());
        while i < comps.len()
            invariant
                i <= comps.len(),
                pairs(comps@) == texts,
                values.len() == i,
                components_seconds(texts.take(i as int)) == Ok::<Seq<int>, ErrorView>(
                    values@.map_values(|v: i64| v as int),
                ),
                forall|x: int| 0 <= x < i ==> 0 <= #[trigger] values@[x] <= 604800 * 0x7fff_ffff,
                s@.len() == 0 || is_digit(s@[0]),
                texts == duration_components(s@),
            decreases comps.len() - i,
        {
            let ghost c = texts[i as int];
            let ghost next = texts.take(i + 1);
            assert(next.drop_last() == texts.take(i as int));
            assert(next.last() == c);
            assert(c == (comps@[i as int].0@, comps@[i as int].1@));
            let amount = chars_of(comps[i].0.as_str());
            let unit = chars_of(comps[i].1.as_str());
            let n = match parse_unsigned(&amount, 0x7fff_ffff) {
                Ok(n) => n,
                Err(e) => {
                    proof {
                        lemma_first_fault(texts, i + 1);
                    }
                    return Err(Error::InvalidDurationAmount(string_of(&amount), e));
                },
            };
            let k = match seconds_of_unit(&unit) {
                Some(k) => k,
                None => {
                    proof {
                        lemma_first_fault(texts, i + 1);
                    }
                    return Err(Error::InvalidDurationUnit(string_of(&unit)));
                },
            };
            assert(0 <= n * k <= 604800 * 0x7fff_ffff) by (nonlinear_arith)
                requires
                    0 <= n <= 0x7fff_ffff,
                    1 <= k <= 604800,
            {
            }
            let ghost before = values@;
            values.push((n as i64) * k);
            assert(values@.map_values(|v: i64| v as int) == before.map_values(|v: i64| v as int).push(
                n * k,
            ));
            i = i + 1;
        }
        assert(texts.take(texts.len() as int) == texts);
        let ghost amounts = values@.map_values(|v: i64| v as int);
        let mut total: i64 = 0;
        let mut j: usize = 0;
        while j < values.len()
            invariant
                j <= values.len(),
                values.len() == comps.len(),
                pairs(comps@) == texts,
                amounts == values@.map_values(|v: i64| v as int),
                forall|x: int| 0 <= x < values.len() ==> 0 <= #[trigger] values@[x],
                0 <= total,
                summed(texts, amounts, j as int) == Ok::<int, ErrorView>(total as int),
                components_seconds(texts) == Ok::<Seq<int>, ErrorView>(amounts),
                s@.len() == 0 || is_digit(s@[0]),
                texts == duration_components(s@),
            decreases values.len() - j,
        {
            let v = values[j];
            assert(amounts[j as int] == v);
            assert(texts[j as int] == (comps@[j as int].0@, comps@[j as int].1@));
            if v > i64::MAX - total {
                proof {
                    lemma_summed_fault(texts, amounts, j + 1, texts.len() as int);
                }
                return Err(
                    Error::InvalidDuration(
                        crate::text::owned(comps[j].0.as_str()),
                        crate::text::owned(comps[j].1.as_str()),
                    ),
                );
            }
            total = total + v;
            j = j + 1;
        }
        Ok(Duration { secs: total, nanos: 0 })
    }
}

/// A fault among the first components is the fault of the whole list.
pub proof fn lemma_first_fault(comps: Seq<(Seq<char>, Seq<char>)>, upto: int)
    requires
        0 <= upto <= comps.len(),
        components_seconds(comps.take(upto)) is Err,
    ensures
        components_seconds(comps) == components_seconds(comps.take(upto)),
    decreases comps.len() - upto,
{
    if upto < comps.len() {
        assert(comps.take(upto + 1).drop_last() == comps.take(upto));
        lemma_first_fault(comps, upto + 1);
    } else {
        assert(comps.take(upto) == comps);
    }
}

/// A total that stopped fitting stays the fault, however many components
/// follow.
pub proof fn lemma_summed_fault(
    comps: Seq<(Seq<char>, Seq<char>)>,
    values: Seq<int>,
    upto: int,
    end: int,
)
    requires
        0 <= upto <= end,
        summed(comps, values, upto) is Err,
    ensures
        summed(comps, values, end) == summed(comps, values, upto),
    decreases end - upto,
{
    if upto < end {
        lemma_summed_fault(comps, values, upto, end - 1);
    }
}

/// An amount with its unit, as in `30m`; nothing where the amount is not
/// positive.
pub open spec fn unit_text(amount: int, unit: char) -> Seq<char> {
    if amount > 0 {
        decimal_text(amount as nat).push(unit)
    } else {
        Seq::empty()
    }
}

/// Two texts with a space between them; where one is empty, the other alone.
pub open spec fn spaced(a: Seq<char>, b: Seq<char>) -> Seq<char> {
    if a.len() == 0 {
        b
    } else if b.len() == 0 {
        a
    } else {
        a.push(' ') + b
    }
}

/// How a length of `secs` whole seconds is written: weeks, days, hours,
/// minutes and seconds, the largest first, each with its unit, those that are
/// zero left out, one space between them. A length that is not positive is
/// written as the empty text.
pub open spec fn duration_text(secs: int) -> Seq<char> {
    if secs <= 0 {
        Seq::empty()
    } else {
        let weeks = secs / 604800;
        let days = (secs % 604800) / 86400;
        let hours = (secs % 86400) / 3600;
        let minutes = (secs % 3600) / 60;
        let seconds = secs % 60;
        spaced(
            spaced(
                spaced(spaced(unit_text(weeks, 'w'), unit_text(days, 'd')), unit_text(hours, 'h')),
                unit_text(minutes, 'm'),
            ),
            unit_text(seconds, 's'),
        )
    }
}

/// Adds an amount with its unit to `out`, after a space if `out` already
/// holds something.
fn push_unit(out: &mut Vec<char>, amount: i64, unit: char)
    ensures
        final(out)@ == spaced(old(out)@, unit_text(amount as int, unit)),
{
    if amount > 0 {
        if out.len() > 0 {
            out.push(' ');
        }
        let digits = decimal(amount as u64);
        let ghost start = out@;
        let mut i: usize = 0;
        while i < digits.len()
            invariant
                i <= digits.len(),
                out@ == start + digits@.take(i as int),
            decreases digits.len() - i,
        {
            out.push(digits[i]);
            assert(digits@.take(i + 1) == digits@.take(i as int).push(digits@[i as int]));
            i = i + 1;
        }
        assert(digits@.take(digits.len() as int) == digits@);
        out.push(unit);
        assert(out@ == start + digits@.push(unit));
    }
}

impl Duration {
    /// Writes the length in weeks, days, hours, minutes and seconds, as in
    /// `1w 3d 4h`. A part of a second is not written.
    pub fn to_string(&self) -> (r: String)
        ensures
            r@ == duration_text(self.seconds()),
    {
        let mut out: Vec<char> = Vec::new();
        let secs = self.secs;
        if secs > 0 {
            let weeks = secs / WEEK;
            let days = (secs % WEEK) / DAY;
            let hours = (secs % DAY) / HOUR;
            let minutes = (secs % HOUR) / MINUTE;
            let seconds = secs % MINUTE;
            push_unit(&mut out, weeks, 'w');
            push_unit(&mut out, days, 'd');
            push_unit(&mut out, hours, 'h');
            push_unit(&mut out, minutes, 'm');
            push_unit(&mut out, seconds, 's');
        }
        string_of(&out)
    }
}

/// Whether `c` is one of the five unit letters.
pub open spec fn is_unit_char(c: char) -> bool {
    c == 'w' || c == 'd' || c == 'h' || c == 'm' || c == 's'
}

/// An amount with its unit letter, as text.
pub open spec fn piece(p: (nat, char)) -> Seq<char> {
    decimal_text(p.0).push(p.1)
}

/// Amounts with their unit letters, as text, with one space between them.
pub open spec fn pieces_text(parts: Seq<(nat, char)>) -> Seq<char>
    decreases parts.len(),
{
    if parts.len() == 0 {
        Seq::empty()
    } else if parts.len() == 1 {
        piece(parts[0])
    } else {
        pieces_text(parts.drop_last()).push(' ') + piece(parts.last())
    }
}

/// The components that amounts with their unit letters are read back as.
pub open spec fn pieces_components(parts: Seq<(nat, char)>) -> Seq<(Seq<char>, Seq<char>)> {
    parts.map_values(|p: (nat, char)| (decimal_text(p.0), seq![p.1]))
}

/// The seconds in the unit that a letter names.
pub open spec fn letter_seconds(c: char) -> int {
    if c == 'w' {
        604800
    } else if c == 'd' {
        86400
    } else if c == 'h' {
        3600
    } else if c == 'm' {
        60
    } else {
        1
    }
}

/// The seconds that each amount with its unit letter stands for.
pub open spec fn pieces_values(parts: Seq<(nat, char)>) -> Seq<int> {
    parts.map_values(|p: (nat, char)| p.0 * letter_seconds(p.1))
}

proof fn lemma_pieces_text_front(parts: Seq<(nat, char)>)
    requires
        parts.len() >= 2,
    ensures
        pieces_text(parts) == piece(parts[0]).push(' ') + pieces_text(parts.drop_first()),
    decreases parts.len(),
{
    let rest = parts.drop_first();
    let front = parts.drop_last();
    assert(pieces_text(parts) == pieces_text(front).push(' ') + piece(parts.last()));
    assert(front[0] == parts[0]);
    assert(rest.last() == parts.last());
    if parts.len() == 2 {
        assert(front.len() == 1);
        assert(rest.len() == 1);
        assert(rest[0] == parts.last());
        assert(pieces_text(front) == piece(parts[0]));
        assert(pieces_text(rest) == piece(parts.last()));
    } else {
        lemma_pieces_text_front(front);
        assert(front.drop_first() == rest.drop_last());
        assert(pieces_text(rest) == pieces_text(rest.drop_last()).push(' ') + piece(rest.last()));
        let a = piece(parts[0]).push(' ');
        let b = pieces_text(rest.drop_last());
        assert(pieces_text(front) == a + b);
        assert((a + b).push(' ') + piece(parts.last()) == a + (b.push(' ') + piece(parts.last())));
    }
}

proof fn lemma_pieces_text_shape(parts: Seq<(nat, char)>)
    requires
        parts.len() >= 1,
    ensures
        pieces_text(parts).len() >= 2,
        is_digit(pieces_text(parts)[0]),
    decreases parts.len(),
{
    lemma_decimal_text(parts[0].0);
    if parts.len() >= 2 {
        lemma_pieces_text_front(parts);
        assert(pieces_text(parts)[0] == decimal_text(parts[0].0)[0]);
    } else {
        assert(pieces_text(parts)[0] == decimal_text(parts[0].0)[0]);
    }
}

/// A unit letter followed by a space is that letter alone once the white
/// space is taken away.
proof fn lemma_trim_unit(u: char)
    requires
        is_unit_char(u),
    ensures
        trimmed(seq![u, ' ']) == seq![u],
{
    let p = |c: char| crate::text::is_space(c);
    let s = seq![u, ' '];
    assert(!p(s[0]));
    crate::text::lemma_drop_leading(s, p, 0);
    assert(s.subrange(0, 2) == s);
    assert(p(s[1]));
    crate::text::lemma_drop_trailing(s, p, 1);
    assert(s.subrange(0, 1) == seq![u]);
}

/// Text written from amounts and unit letters is cut back into those
/// amounts and letters.
pub proof fn lemma_components_of_pieces(parts: Seq<(nat, char)>)
    requires
        forall|i: int| 0 <= i < parts.len() ==> is_unit_char(#[trigger] parts[i].1),
    ensures
        duration_components(pieces_text(parts)) == pieces_components(parts),
    decreases parts.len(),
{
    let s = pieces_text(parts);
    if parts.len() == 0 {
        assert(digit_run(s) == 0);
        assert(pieces_components(parts) == Seq::<(Seq<char>, Seq<char>)>::empty());
    } else {
        let digits = decimal_text(parts[0].0);
        let u = parts[0].1;
        lemma_decimal_text(parts[0].0);
        assert(is_unit_char(parts[0].1));
        let n = digits.len() as int;
        if parts.len() == 1 {
            assert(s == digits.push(u));
            assert forall|i: int| 0 <= i < n implies is_digit(#[trigger] s[i]) by {
                assert(s[i] == digits[i]);
            }
            assert(s[n] == u);
            lemma_digit_run(s, n);
            let rest = s.skip(n);
            assert(rest == seq![u]);
            lemma_unit_run(rest, 1);
            assert(rest.skip(1).len() == 0);
            assert(s.take(n) == digits);
            assert(rest.take(1) == seq![u]);
            assert(pieces_components(parts) == seq![(digits, seq![u])]);
        } else {
            let tail = parts.drop_first();
            let tail_text = pieces_text(tail);
            lemma_pieces_text_front(parts);
            lemma_pieces_text_shape(tail);
            assert(s == digits.push(u).push(' ') + tail_text);
            assert forall|i: int| 0 <= i < n implies is_digit(#[trigger] s[i]) by {
                assert(s[i] == digits[i]);
            }
            assert(s[n] == u);
            lemma_digit_run(s, n);
            let rest = s.skip(n);
            assert(rest == seq![u, ' '] + tail_text);
            assert(rest[0] == u);
            assert(rest[1] == ' ');
            assert(rest[2] == tail_text[0]);
            assert forall|i: int| 0 <= i < 2 implies !is_digit(#[trigger] rest[i]) by {}
            lemma_unit_run(rest, 2);
            let after = rest.skip(2);
            assert(after == tail_text);
            assert(s.take(n) == digits);
            assert(rest.take(2) == seq![u, ' ']);
            lemma_trim_unit(u);
            assert forall|i: int| 0 <= i < tail.len() implies is_unit_char(#[trigger] tail[i].1) by {
                assert(tail[i] == parts[i + 1]);
            }
            lemma_components_of_pieces(tail);
            assert(duration_components(s) == seq![(digits, seq![u])] + pieces_components(tail));
            assert(seq![(digits, seq![u])] + pieces_components(tail) == pieces_components(parts));
        }
    }
}

/// Components that are all sound give their seconds, in order.
pub proof fn lemma_components_sound(comps: Seq<(Seq<char>, Seq<char>)>, values: Seq<int>)
    requires
        comps.len() == values.len(),
        forall|i: int|
            0 <= i < comps.len() ==> component_seconds(#[trigger] comps[i]) == Ok::<int, ErrorView>(
                values[i],
            ),
    ensures
        components_seconds(comps) == Ok::<Seq<int>, ErrorView>(values),
    decreases comps.len(),
{
    if comps.len() > 0 {
        let c = comps.drop_last();
        let v = values.drop_last();
        assert forall|i: int| 0 <= i < c.len() implies component_seconds(#[trigger] c[i]) == Ok::<
            int,
            ErrorView,
        >(v[i]) by {
            assert(c[i] == comps[i]);
        }
        lemma_components_sound(c, v);
        assert(component_seconds(comps[comps.len() - 1]) == Ok::<int, ErrorView>(
            values[comps.len() - 1],
        ));
        assert(v.push(values.last()) == values);
    } else {
        assert(values == Seq::<int>::empty());
    }
}

/// The sum of values that are not negative is not negative, and grows with
/// the number of values taken.
proof fn lemma_sum_grows(values: Seq<int>, upto: int, end: int)
    requires
        0 <= upto <= end <= values.len(),
        forall|i: int| 0 <= i < values.len() ==> 0 <= #[trigger] values[i],
    ensures
        0 <= sum_upto(values, upto) <= sum_upto(values, end),
    decreases end,
{
    if upto < end {
        lemma_sum_grows(values, upto, end - 1);
    } else if upto > 0 {
        lemma_sum_grows(values, upto - 1, end - 1);
    }
}

/// Values that are not negative and add up to something that fits are added
/// up without a fault.
pub proof fn lemma_summed_sound(comps: Seq<(Seq<char>, Seq<char>)>, values: Seq<int>, upto: int)
    requires
        0 <= upto <= values.len(),
        forall|i: int| 0 <= i < values.len() ==> 0 <= #[trigger] values[i],
        sum_upto(values, values.len() as int) <= i64::MAX,
    ensures
        summed(comps, values, upto) == Ok::<int, ErrorView>(sum_upto(values, upto)),
    decreases upto,
{
    if upto > 0 {
        lemma_summed_sound(comps, values, upto - 1);
        lemma_sum_grows(values, upto, values.len() as int);
    }
}

/// Whether every piece has a unit letter and an amount that can be read.
pub open spec fn pieces_ok(parts: Seq<(nat, char)>) -> bool {
    forall|i: int|
        0 <= i < parts.len() ==> is_unit_char(#[trigger] parts[i].1) && 0 < parts[i].0 <= i32::MAX
}

/// What a piece adds to the text, the components and the sum when it is put
/// behind others, and that nothing changes when its amount is zero.
proof fn lemma_with_piece(parts: Seq<(nat, char)>, amount: int, unit: char) -> (r: Seq<(nat, char)>)
    requires
        0 <= amount <= i32::MAX,
        is_unit_char(unit),
        pieces_ok(parts),
    ensures
        pieces_ok(r),
        r == (if amount > 0 {
            parts.push((amount as nat, unit))
        } else {
            parts
        }),
        pieces_text(r) == spaced(pieces_text(parts), unit_text(amount, unit)),
        sum_upto(pieces_values(r), r.len() as int) == sum_upto(
            pieces_values(parts),
            parts.len() as int,
        ) + amount * letter_seconds(unit),
{
    if amount > 0 {
        let r = parts.push((amount as nat, unit));
        assert(r.drop_last() == parts);
        assert(r.last() == (amount as nat, unit));
        lemma_decimal_text(amount as nat);
        if parts.len() == 0 {
            assert(pieces_text(parts).len() == 0);
        } else {
            lemma_pieces_text_shape(parts);
        }
        assert(pieces_values(r) == pieces_values(parts).push(amount * letter_seconds(unit)));
        lemma_sum_ignores_rest(pieces_values(parts), amount * letter_seconds(unit));
        r
    } else {
        parts
    }
}

proof fn lemma_sum_ignores_rest(values: Seq<int>, x: int)
    ensures
        sum_upto(values.push(x), values.len() as int) == sum_upto(values, values.len() as int),
        sum_upto(values.push(x), values.len() as int + 1) == sum_upto(
            values,
            values.len() as int,
        ) + x,
{
    lemma_sum_same_prefix(values, values.push(x), values.len() as int);
}

proof fn lemma_sum_same_prefix(a: Seq<int>, b: Seq<int>, upto: int)
    requires
        0 <= upto <= a.len(),
        upto <= b.len(),
        forall|i: int| 0 <= i < upto ==> a[i] == b[i],
    ensures
        sum_upto(a, upto) == sum_upto(b, upto),
    decreases upto,
{
    if upto > 0 {
        lemma_sum_same_prefix(a, b, upto - 1);
    }
}

/// Text written from amounts and unit letters is read back as the sum of
/// what they stand for, where every amount is one that can be read and the
/// sum fits.
pub proof fn lemma_pieces_roundtrip(parts: Seq<(nat, char)>)
    requires
        pieces_ok(parts),
        sum_upto(pieces_values(parts), parts.len() as int) <= i64::MAX,
    ensures
        parsed_duration(pieces_text(parts)) == Ok::<int, ErrorView>(
            sum_upto(pieces_values(parts), parts.len() as int),
        ),
{
    let text = pieces_text(parts);
    let comps = pieces_components(parts);
    let values = pieces_values(parts);
    lemma_components_of_pieces(parts);
    assert forall|i: int| 0 <= i < comps.len() implies component_seconds(#[trigger] comps[i])
        == Ok::<int, ErrorView>(values[i]) by {
        lemma_piece_value(parts[i]);
    }
    lemma_components_sound(comps, values);
    assert forall|i: int| 0 <= i < values.len() implies 0 <= #[trigger] values[i] by {
        lemma_piece_value(parts[i]);
    }
    lemma_summed_sound(comps, values, values.len() as int);
    if parts.len() > 0 {
        lemma_pieces_text_shape(parts);
    } else {
        assert(text.len() == 0);
    }
}

/// One amount with its unit letter is read back as what it stands for.
proof fn lemma_piece_value(p: (nat, char))
    requires
        is_unit_char(p.1),
        0 < p.0 <= i32::MAX,
    ensures
        component_seconds((decimal_text(p.0), seq![p.1])) == Ok::<int, ErrorView>(
            p.0 * letter_seconds(p.1),
        ),
        0 <= p.0 * letter_seconds(p.1),
{
    lemma_padded_roundtrip(p.0, 0, i32::MAX as nat);
    lemma_decimal_text(p.0);
    assert(padded_decimal(p.0, 0) == decimal_text(p.0));
    lemma_unit_letter(p.1);
    assert(0 <= p.0 * letter_seconds(p.1)) by (nonlinear_arith)
        requires
            p.0 >= 0,
            letter_seconds(p.1) >= 1,
    {
    }
}

/// A length of whole seconds is its weeks, days, hours, minutes and seconds
/// together.
proof fn lemma_decompose(secs: int)
    requires
        0 <= secs,
    ensures
        (secs / 604800) * 604800 + ((secs % 604800) / 86400) * 86400 + ((secs % 86400) / 3600)
            * 3600 + ((secs % 3600) / 60) * 60 + secs % 60 == secs,
        0 <= secs / 604800,
        0 <= (secs % 604800) / 86400 < 7,
        0 <= (secs % 86400) / 3600 < 24,
        0 <= (secs % 3600) / 60 < 60,
        0 <= secs % 60 < 60,
{
    let r1 = secs % 604800;
    let r2 = secs % 86400;
    let r3 = secs % 3600;
    let r4 = secs % 60;
    vstd::arithmetic::div_mod::lemma_fundamental_div_mod(secs, 604800);
    vstd::arithmetic::div_mod::lemma_fundamental_div_mod(r1, 86400);
    vstd::arithmetic::div_mod::lemma_fundamental_div_mod(r2, 3600);
    vstd::arithmetic::div_mod::lemma_fundamental_div_mod(r3, 60);
    assert(r1 % 86400 == r2) by {
        vstd::arithmetic::div_mod::lemma_mod_mod(secs, 86400, 7);
    }
    assert(r2 % 3600 == r3) by {
        vstd::arithmetic::div_mod::lemma_mod_mod(secs, 3600, 24);
    }
    assert(r3 % 60 == r4) by {
        vstd::arithmetic::div_mod::lemma_mod_mod(secs, 60, 60);
    }
    assert(0 <= r1 < 604800 && 0 <= r2 < 86400 && 0 <= r3 < 3600 && 0 <= r4 < 60);
    assert(0 <= r1 / 86400 < 7) by {
        assert(r1 == 86400 * (r1 / 86400) + r2);
    }
    assert(0 <= r2 / 3600 < 24) by {
        assert(r2 == 3600 * (r2 / 3600) + r3);
    }
    assert(0 <= r3 / 60 < 60) by {
        assert(r3 == 60 * (r3 / 60) + r4);
    }
    assert(0 <= secs / 604800) by {
        assert(secs == 604800 * (secs / 604800) + r1);
    }
}

/// A length of whole seconds that is written and read again is the same
/// length: for every length that is not negative and has no more weeks
/// than an amount can hold.
pub proof fn lemma_duration_roundtrip(secs: int)
    requires
        0 <= secs <= i64::MAX,
        secs / 604800 <= i32::MAX,
    ensures
        parsed_duration(duration_text(secs)) == Ok::<int, ErrorView>(secs),
{
    lemma_decompose(secs);
    let weeks = secs / 604800;
    let days = (secs % 604800) / 86400;
    let hours = (secs % 86400) / 3600;
    let minutes = (secs % 3600) / 60;
    let seconds = secs % 60;
    let p0 = Seq::<(nat, char)>::empty();
    assert(pieces_values(p0) == Seq::<int>::empty());
    assert(pieces_text(p0) == Seq::<char>::empty());
    let p1 = lemma_with_piece(p0, weeks, 'w');
    let p2 = lemma_with_piece(p1, days, 'd');
    let p3 = lemma_with_piece(p2, hours, 'h');
    let p4 = lemma_with_piece(p3, minutes, 'm');
    let p5 = lemma_with_piece(p4, seconds, 's');
    let t1 = unit_text(weeks, 'w');
    assert(pieces_text(p1) == t1);
    let t2 = spaced(t1, unit_text(days, 'd'));
    let t3 = spaced(t2, unit_text(hours, 'h'));
    let t4 = spaced(t3, unit_text(minutes, 'm'));
    let t5 = spaced(t4, unit_text(seconds, 's'));
    assert(pieces_text(p5) == t5);
    if secs == 0 {
        assert(t5 == Seq::<char>::empty());
    }
    assert(t5 == duration_text(secs));
    lemma_pieces_roundtrip(p5);
}

/// Each unit letter names its unit.
proof fn lemma_unit_letter(c: char)
    requires
        is_unit_char(c),
    ensures
        unit_seconds(seq![c]) == Some(letter_seconds(c)),
{
    assert(seq![c][0] == c);
    assert(seq!['w'][0] == 'w' && seq!['d'][0] == 'd' && seq!['h'][0] == 'h' && seq!['m'][0] == 'm');
}

} // verus!
