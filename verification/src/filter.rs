//! Telling which items of a list are wanted.

use vstd::prelude::*;
use crate::calendar::{first_of_month, first_of_year};
use crate::duration::{parsed_duration, unit_run, lemma_unit_run, Duration};
use crate::error::{Error, ErrorView};
use crate::numbers::{parse_unsigned, parsed_unsigned};
use crate::text::{
    chars_of, is_digit, join_from, joined, lowered, slice_of, spells, split, split_on, string_of,
    texts, to_lowercase, trim, trimmed,
};
use crate::timestamp::{day_start, parsed_timestamp, week_start, Timestamp};

verus! {

/// Tells of each item of one type whether it is wanted.
///
/// The present moment is handed in, never read from a clock, so that the
/// same question always has the same answer.
pub trait Filter: Sized {
    /// The type of the items.
    type Type;

    /// Whether `item` is wanted at the moment `now`.
    spec fn accepts(&self, item: &Self::Type, now: Timestamp) -> bool;

    /// Whether the days that the filter speaks of, counted from `now`, are
    /// dates that can be held.
    spec fn usable_at(&self, now: Timestamp) -> bool;

    /// Whether this is the filter that wants every item.
    spec fn is_all(&self) -> bool;

    /// Tells whether `item` is wanted at the moment `now`.
    fn matches(&self, item: &Self::Type, now: Timestamp) -> (r: bool)
        requires
            self.usable_at(now),
        ensures
            r == self.accepts(item, now),
    ;

    /// Tells whether this is the filter that wants every item.
    fn is_default(&self) -> (r: bool)
        ensures
            r == self.is_all(),
    ;

    /// The filter that wants every item refuses none, and is usable at any
    /// moment.
    proof fn lemma_all_accepts(&self, item: &Self::Type, now: Timestamp)
        requires
            self.is_all(),
        ensures
            self.accepts(item, now),
            self.usable_at(now),
    ;
}

/// Several filters on one type of item, all of which an item has to pass.
///
/// A specification that holds nothing but the filter that wants every item
/// is a passthrough: it stands for "no constraint".
#[derive(Debug, Clone, PartialEq)]
pub struct FilterSpec<F> {
    filters: Vec<F>,
}

/// Whether every filter from `from` on accepts `item`.
pub open spec fn all_accept<F: Filter>(filters: Seq<F>, from: int, item: &F::Type, now: Timestamp) -> bool
    decreases filters.len() - from,
{
    if from < 0 || from >= filters.len() {
        true
    } else {
        filters[from].accepts(item, now) && all_accept(filters, from + 1, item, now)
    }
}

/// `all_accept` says what its name says.
pub proof fn lemma_all_accept<F: Filter>(filters: Seq<F>, from: int, item: &F::Type, now: Timestamp)
    requires
        0 <= from,
    ensures
        all_accept(filters, from, item, now) <==> (forall|k: int|
            from <= k < filters.len() ==> (#[trigger] filters[k]).accepts(item, now)),
    decreases filters.len() - from,
{
    if from < filters.len() {
        lemma_all_accept(filters, from + 1, item, now);
    }
}

impl<F: Filter> FilterSpec<F> {
    /// The filters, in order.
    pub closed spec fn filters(&self) -> Seq<F> {
        self.filters@
    }

    /// Whether the specification is nothing but the filter that wants every
    /// item.
    pub open spec fn passthrough(&self) -> bool {
        self.filters().len() == 1 && self.filters()[0].is_all()
    }

    /// A specification with one filter.
    pub fn new(filter: F) -> (r: Self)
        ensures
            r.filters() == seq![filter],
    {
        let mut filters: Vec<F> = Vec::new();
        filters.push(filter);
        FilterSpec { filters }
    }

    /// The specification that asks for `filter` as well. On a passthrough the
    /// new filter takes the place of the old one.
    pub fn and_then(self, filter: F) -> (r: Self)
        ensures
            self.passthrough() ==> r.filters() == seq![filter],
            !self.passthrough() ==> r.filters() == self.filters().push(filter),
    {
        let mut filters = self.filters;
        if filters.len() == 1 && filters[0].is_default() {
            filters.clear();
        }
        filters.push(filter);
        FilterSpec { filters }
    }

    /// Tells whether the specification is nothing but the filter that wants
    /// every item.
    pub fn is_passthrough(&self) -> (r: bool)
        ensures
            r == self.passthrough(),
    {
        self.filters.len() == 1 && self.filters[0].is_default()
    }

    /// A passthrough wants every item.
    pub proof fn lemma_passthrough_accepts(&self, item: &F::Type, now: Timestamp)
        requires
            self.passthrough(),
        ensures
            self.accepts(item, now),
            self.usable_at(now),
    {
        self.filters()[0].lemma_all_accepts(item, now);
        lemma_all_accept(self.filters(), 0, item, now);
    }

    /// A filter added to a specification that is no passthrough is asked
    /// for as well: an item passes when it passed before and passes the filter.
    pub proof fn lemma_and_then_accepts(&self, then: &Self, filter: F, item: &F::Type, now: Timestamp)
        requires
            then.filters() == self.filters().push(filter),
        ensures
            then.accepts(item, now) == (self.accepts(item, now) && filter.accepts(item, now)),
    {
        lemma_all_accept(self.filters(), 0, item, now);
        lemma_all_accept(then.filters(), 0, item, now);
        let n = self.filters().len() as int;
        assert(then.filters()[n] == filter);
        assert forall|k: int| 0 <= k < n implies then.filters()[k] == self.filters()[k] by {}
        if self.accepts(item, now) && filter.accepts(item, now) {
            assert forall|k: int| 0 <= k < then.filters().len() implies (
            #[trigger] then.filters()[k]).accepts(item, now) by {
                if k < n {
                    assert(then.filters()[k] == self.filters()[k]);
                }
            }
        }
        if then.accepts(item, now) {
            assert forall|k: int| 0 <= k < n implies (#[trigger] self.filters()[k]).accepts(
                item,
                now,
            ) by {
                assert(then.filters()[k] == self.filters()[k]);
            }
        }
    }

    /// A passthrough to which the filter that wants every item is added is
    /// still a passthrough.
    pub proof fn lemma_passthrough_stays(&self, then: &Self, filter: F)
        requires
            self.passthrough(),
            filter.is_all(),
            then.filters() == seq![filter],
        ensures
            then.passthrough(),
    {
        assert(then.filters()[0] == filter);
    }

    /// A filter added to a passthrough gives the specification that holds
    /// that filter alone: it wants exactly the items that the filter wants.
    pub proof fn lemma_passthrough_then(&self, then: &Self, filter: F, item: &F::Type, now: Timestamp)
        requires
            self.passthrough(),
            then.filters() == seq![filter],
        ensures
            then.accepts(item, now) == filter.accepts(item, now),
    {
        lemma_all_accept(then.filters(), 0, item, now);
        assert(then.filters()[0] == filter);
    }
}

impl<F: Filter> Filter for FilterSpec<F> {
    type Type = F::Type;

    open spec fn accepts(&self, item: &F::Type, now: Timestamp) -> bool {
        all_accept(self.filters(), 0, item, now)
    }

    open spec fn usable_at(&self, now: Timestamp) -> bool {
        forall|k: int| 0 <= k < self.filters().len() ==> (#[trigger] self.filters()[k]).usable_at(now)
    }

    open spec fn is_all(&self) -> bool {
        self.passthrough()
    }

    #[verifier::loop_isolation(false)]
    fn matches(&self, item: &F::Type, now: Timestamp) -> (r: bool) {
        let mut i: usize = 0;
        proof {
            lemma_all_accept(self.filters@, 0, item, now);
            assert(self.filters() == self.filters@);
            assert forall|k: int| 0 <= k < self.filters@.len() implies (
            #[trigger] self.filters@[k]).usable_at(now) by {
                assert(self.filters()[k].usable_at(now));
            }
        }
        while i < self.filters.len()
            invariant
                i <= self.filters.len(),
                forall|k: int| 0 <= k < i ==> (#[trigger] self.filters@[k]).accepts(item, now),
                forall|k: int|
                    0 <= k < self.filters@.len() ==> (#[trigger] self.filters@[k]).usable_at(now),
            decreases self.filters.len() - i,
        {
            if !self.filters[i].matches(item, now) {
                return false;
            }
            i = i + 1;
        }
        true
    }

    fn is_default(&self) -> (r: bool) {
        self.is_passthrough()
    }

    proof fn lemma_all_accepts(&self, item: &F::Type, now: Timestamp) {
        self.lemma_passthrough_accepts(item, now);
    }
}

/// A filter on moments, in the words people use for spans of time.
#[derive(Debug, Clone, Copy, PartialEq)]
pub enum TimestampFilter {
    /// From the start of today to the start of tomorrow.
    Today,
    /// From the start of tomorrow to the start of the day after.
    Tomorrow,
    /// From the start of yesterday to the start of today.
    Yesterday,
    /// From the start of this week's Monday to the start of the next.
    ThisWeek,
    /// From that many days before now, to the nanosecond, up to now.
    Days(u16),
    /// From the start of the first of this month to the start of the first of
    /// the next.
    ThisMonth,
    /// From the start of the first of January of this year to that of the next.
    ThisYear,
    /// From the given moment on, that moment included.
    Starting(Timestamp),
    /// Before the given moment, that moment excluded.
    Before(Timestamp),
}

/// What a [`TimestampFilter`] holds, with each moment as local seconds,
/// nanoseconds and offset.
pub enum TimestampFilterView {
    Today,
    Tomorrow,
    Yesterday,
    ThisWeek,
    Days(u16),
    ThisMonth,
    ThisYear,
    Starting((int, int, int)),
    Before((int, int, int)),
}

impl View for TimestampFilter {
    type V = TimestampFilterView;

    open spec fn view(&self) -> TimestampFilterView {
        match self {
            TimestampFilter::Today => TimestampFilterView::Today,
            TimestampFilter::Tomorrow => TimestampFilterView::Tomorrow,
            TimestampFilter::Yesterday => TimestampFilterView::Yesterday,
            TimestampFilter::ThisWeek => TimestampFilterView::ThisWeek,
            TimestampFilter::Days(n) => TimestampFilterView::Days(*n),
            TimestampFilter::ThisMonth => TimestampFilterView::ThisMonth,
            TimestampFilter::ThisYear => TimestampFilterView::ThisYear,
            TimestampFilter::Starting(t) => TimestampFilterView::Starting(
                (t.local(), t.subsec(), t.offset_secs()),
            ),
            TimestampFilter::Before(t) => TimestampFilterView::Before(
                (t.local(), t.subsec(), t.offset_secs()),
            ),
        }
    }
}

/// Whether the moment `ts` lies in the span from `from` up to, not
/// including, `to`, both given in whole seconds since 1970-01-01 00:00 UTC.
pub open spec fn in_span(ts: Timestamp, from: int, to: int) -> bool {
    from <= ts.instant() < to
}

/// The filter that a plain word names.
pub open spec fn timestamp_filter_word(s: Seq<char>) -> Option<TimestampFilterView> {
    if s == "today"@ {
        Some(TimestampFilterView::Today)
    } else if s == "tomorrow"@ || s == "tmrw"@ {
        Some(TimestampFilterView::Tomorrow)
    } else if s == "yesterday"@ || s == "yst"@ {
        Some(TimestampFilterView::Yesterday)
    } else if s == "week"@ || s == "this-week"@ {
        Some(TimestampFilterView::ThisWeek)
    } else if s == "month"@ || s == "this-month"@ {
        Some(TimestampFilterView::ThisMonth)
    } else if s == "year"@ || s == "this-year"@ {
        Some(TimestampFilterView::ThisYear)
    } else {
        None
    }
}

/// What each piece holds once the white space around it is taken away.
pub open spec fn each_trimmed(pieces: Seq<Seq<char>>) -> Seq<Seq<char>> {
    pieces.map_values(|p: Seq<char>| trimmed(p))
}

/// The filter that a text of several words names, read at the moment `now`.
///
/// The words are the pieces between spaces. `N days` is the last N days.
/// `from`, `starting` or `start` and a timestamp is the time from that
/// moment on; `to`, `before` or `ending` and a timestamp is the time before
/// it. The timestamp is the remaining words with a space between them.
pub open spec fn timestamp_filter_phrase(s: Seq<char>, now: Timestamp) -> Result<
    TimestampFilterView,
    ErrorView,
> {
    let parts = each_trimmed(split_on(s, ' '));
    if parts.len() < 2 {
        Err(ErrorView::InvalidTimestampFilter(s))
    } else if parts[1] == "days"@ {
        match parsed_unsigned(parts[0], 65535) {
            Ok(n) => Ok(TimestampFilterView::Days(n as u16)),
            Err(e) => Err(ErrorView::TimestampFilterParsingFailed(e.text())),
        }
    } else if parts[0] == "from"@ || parts[0] == "starting"@ || parts[0] == "start"@ {
        match parsed_timestamp(joined(parts.skip(1), ' '), now) {
            Ok(t) => Ok(TimestampFilterView::Starting(t)),
            Err(e) => Err(e),
        }
    } else if parts[0] == "to"@ || parts[0] == "before"@ || parts[0] == "ending"@ {
        match parsed_timestamp(joined(parts.skip(1), ' '), now) {
            Ok(t) => Ok(TimestampFilterView::Before(t)),
            Err(e) => Err(e),
        }
    } else {
        Err(ErrorView::InvalidTimestampFilter(s))
    }
}

/// The filter that a text names, read at the moment `now`. The text is
/// taken without the white space around it and in lower case.
pub open spec fn timestamp_filter_parsed(s: Seq<char>, now: Timestamp) -> Result<
    TimestampFilterView,
    ErrorView,
> {
    let word = lowered(trimmed(s));
    match timestamp_filter_word(word) {
        Some(f) => Ok(f),
        None => timestamp_filter_phrase(word, now),
    }
}

impl TimestampFilter {
    /// Whether the days that the filter speaks of, counted from `now`, are
    /// dates that can be held.
    pub open spec fn usable_at(self, now: Timestamp) -> bool {
        match self {
            TimestampFilter::Today => now.has_room(0, 1),
            TimestampFilter::Tomorrow => now.has_room(0, 2),
            TimestampFilter::Yesterday => now.has_room(1, 0),
            TimestampFilter::ThisWeek => now.has_room(6, 7),
            TimestampFilter::Days(n) => now.local() - n * 86400 >= crate::calendar::MIN_LOCAL,
            TimestampFilter::ThisMonth => now.has_room(0, 32),
            TimestampFilter::ThisYear => now.has_room(0, 366),
            TimestampFilter::Starting(_) => true,
            TimestampFilter::Before(_) => true,
        }
    }

    /// Whether the filter, at the moment `now`, wants the moment `ts`.
    ///
    /// Every span is half open: its first moment is in, its last is not.
    /// Days begin at midnight as a clock under the offset of `now` shows it;
    /// the last `n` days are counted back from `now` itself.
    pub open spec fn accepts(self, now: Timestamp, ts: Timestamp) -> bool {
        let midnight = day_start(now.local()) - now.offset_secs();
        match self {
            TimestampFilter::Today => in_span(ts, midnight, midnight + 86400),
            TimestampFilter::Tomorrow => in_span(ts, midnight + 86400, midnight + 2 * 86400),
            TimestampFilter::Yesterday => in_span(ts, midnight - 86400, midnight),
            TimestampFilter::ThisWeek => in_span(
                ts,
                week_start(now.local()) - now.offset_secs(),
                week_start(now.local()) + 7 * 86400 - now.offset_secs(),
            ),
            TimestampFilter::Days(n) => {
                let from = now.instant() - n * 86400;
                (from < ts.instant() || (from == ts.instant() && now.subsec() <= ts.subsec()))
                    && ts.is_before(now)
            },
            TimestampFilter::ThisMonth => in_span(
                ts,
                first_of_month(day_start(now.local())) - now.offset_secs(),
                first_of_month(first_of_month(day_start(now.local())) + 32 * 86400)
                    - now.offset_secs(),
            ),
            TimestampFilter::ThisYear => in_span(
                ts,
                first_of_year(day_start(now.local())) - now.offset_secs(),
                first_of_year(first_of_year(day_start(now.local())) + 366 * 86400)
                    - now.offset_secs(),
            ),
            TimestampFilter::Starting(from) => !ts.is_before(from),
            TimestampFilter::Before(to) => ts.is_before(to),
        }
    }

    /// Tells whether the filter, at the moment `now`, wants the moment `ts`.
    pub fn matches(&self, now: Timestamp, ts: Timestamp) -> (r: bool)
        requires
            self.usable_at(now),
        ensures
            r == self.accepts(now, ts),
    {
        match self {
            TimestampFilter::Today => within(&ts, &now.today(), &now.tomorrow()),
            TimestampFilter::Tomorrow => within(&ts, &now.tomorrow(), &now.days_forward(2)),
            TimestampFilter::Yesterday => within(&ts, &now.yesterday(), &now.today()),
            TimestampFilter::ThisWeek => within(&ts, &now.this_week(), &now.next_week()),
            TimestampFilter::Days(days) => {
                let from = now.earlier_by_days(*days);
                let early = ts.before(&from);
                let past = ts.before(&now);
                !early && past
            },
            TimestampFilter::ThisMonth => within(&ts, &now.this_month(), &now.next_month()),
            TimestampFilter::ThisYear => within(&ts, &now.this_year(), &now.next_year()),
            TimestampFilter::Starting(starting) => !ts.before(starting),
            TimestampFilter::Before(before) => ts.before(before),
        }
    }

    /// Reads a filter from the words people use, at the moment `now`.
    pub fn parse(s: &str, now: Timestamp) -> (r: Result<Self, Error>)
        requires
            now.has_room(1, 2),
        ensures
            match r {
                Ok(f) => timestamp_filter_parsed(s@, now) == Ok::<TimestampFilterView, ErrorView>(
                    f@,
                ),
                Err(e) => timestamp_filter_parsed(s@, now) == Err::<
                    TimestampFilterView,
                    ErrorView,
                >(e@),
            },
    {
        let trimmed_text = string_of(&trim(&chars_of(s)));
        let lower = to_lowercase(trimmed_text.as_str());
        let v = chars_of(lower.as_str());
        if spells(&v, "today") {
            Ok(TimestampFilter::Today)
        } else if spells(&v, "tomorrow") || spells(&v, "tmrw") {
            Ok(TimestampFilter::Tomorrow)
        } else if spells(&v, "yesterday") || spells(&v, "yst") {
            Ok(TimestampFilter::Yesterday)
        } else if spells(&v, "week") || spells(&v, "this-week") {
            Ok(TimestampFilter::ThisWeek)
        } else if spells(&v, "month") || spells(&v, "this-month") {
            Ok(TimestampFilter::ThisMonth)
        } else if spells(&v, "year") || spells(&v, "this-year") {
            Ok(TimestampFilter::ThisYear)
        } else {
            Self::try_parse_complex(lower.as_str(), now)
        }
    }

    /// Reads a filter of several words, at the moment `now`.
    pub fn try_parse_complex(s: &str, now: Timestamp) -> (r: Result<Self, Error>)
        requires
            now.has_room(1, 2),
        ensures
            match r {
                Ok(f) => timestamp_filter_phrase(s@, now) == Ok::<TimestampFilterView, ErrorView>(
                    f@,
                ),
                Err(e) => timestamp_filter_phrase(s@, now) == Err::<
                    TimestampFilterView,
                    ErrorView,
                >(e@),
            },
    {
        let v = chars_of(s);
        let raw = split(&v, ' ');
        let mut parts: Vec<Vec<char>> = Vec::new();
        let mut i: usize = 0;
        while i < raw.len()
            invariant
                i <= raw.len(),
                parts.len() == i,
                forall|k: int| 0 <= k < i ==> (#[trigger] parts@[k])@ == trimmed(raw@[k]@),
            decreases raw.len() - i,
        {
            parts.push(trim(&raw[i]));
            i = i + 1;
        }
        let ghost words = each_trimmed(split_on(s@, ' '));
        assert(texts(parts@) == words) by {
            assert(texts(raw@).len() == raw@.len());
            assert forall|k: int| 0 <= k < parts@.len() implies texts(parts@)[k] == words[k] by {
                assert(texts(raw@)[k] == raw@[k]@);
            }
        }
        if parts.len() < 2 {
            return Err(Error::InvalidTimestampFilter(string_of(&v)));
        }
        assert(words[0] == parts@[0]@);
        assert(words[1] == parts@[1]@);
        if spells(&parts[1], "days") {
            return match parse_unsigned(&parts[0], 65535) {
                Ok(n) => Ok(TimestampFilter::Days(n as u16)),
                Err(e) => Err(Error::TimestampFilterParsingFailed(e.message())),
            };
        }
        let starting = spells(&parts[0], "from") || spells(&parts[0], "starting") || spells(
            &parts[0],
            "start",
        );
        let ending = spells(&parts[0], "to") || spells(&parts[0], "before") || spells(
            &parts[0],
            "ending",
        );
        if starting || ending {
            let rest = string_of(&join_from(&parts, 1, ' '));
            match Timestamp::parse(rest.as_str(), now) {
                Ok(t) => if starting {
                    Ok(TimestampFilter::Starting(t))
                } else {
                    Ok(TimestampFilter::Before(t))
                },
                Err(e) => Err(e),
            }
        } else {
            Err(Error::InvalidTimestampFilter(string_of(&v)))
        }
    }

    /// Every filter is usable at a moment with room for the longest span
    /// back and the longest span forward that a filter can speak of.
    pub proof fn lemma_usable(self, now: Timestamp)
        requires
            now.has_room(65535, 366),
        ensures
            self.usable_at(now),
    {
    }

    /// Yesterday, today and tomorrow do not overlap: no moment is in two of
    /// them.
    pub proof fn lemma_days_apart(now: Timestamp, ts: Timestamp)
        ensures
            !(TimestampFilter::Yesterday.accepts(now, ts) && TimestampFilter::Today.accepts(now, ts)),
            !(TimestampFilter::Today.accepts(now, ts) && TimestampFilter::Tomorrow.accepts(now, ts)),
            !(TimestampFilter::Yesterday.accepts(now, ts) && TimestampFilter::Tomorrow.accepts(
                now,
                ts,
            )),
    {
    }

    /// The span of today is half open: the start of today is in it, the
    /// start of tomorrow is not.
    pub proof fn lemma_today_half_open(now: Timestamp, start: Timestamp, end: Timestamp)
        requires
            now.wf(),
            start.wf(),
            end.wf(),
            start.local() == day_start(now.local()),
            start.offset_secs() == now.offset_secs(),
            end.local() == day_start(now.local()) + 86400,
            end.offset_secs() == now.offset_secs(),
        ensures
            TimestampFilter::Today.accepts(now, start),
            !TimestampFilter::Today.accepts(now, end),
    {
    }
}

/// Tells whether `ts` lies in the span from `from` up to, not including,
/// `to`, two moments on the full second.
fn within(ts: &Timestamp, from: &Timestamp, to: &Timestamp) -> (r: bool)
    requires
        from.subsec() == 0,
        to.subsec() == 0,
    ensures
        r == in_span(*ts, from.instant(), to.instant()),
{
    let early = ts.before(from);
    let past = ts.before(to);
    !early && past
}

/// The comparisons that a duration filter can make.
#[derive(Debug, Clone, Copy, PartialEq, Eq, Structural)]
pub enum Comparison {
    Less,
    LessOrEqual,
    Greater,
    GreaterOrEqual,
    Equal,
}

/// A filter on lengths of time: a comparison with a given length.
#[derive(Debug, Clone, Copy, PartialEq, Eq, Structural)]
pub enum DurationFilter {
    LessThan(Duration),
    LessThanOrEqual(Duration),
    GreaterThan(Duration),
    GreaterThanOrEqual(Duration),
    Equal(Duration),
}

/// The comparison that an operator names. No operator at all stands for
/// equality.
pub open spec fn comparison_named(op: Seq<char>) -> Option<Comparison> {
    if op == "<="@ {
        Some(Comparison::LessOrEqual)
    } else if op == "<"@ {
        Some(Comparison::Less)
    } else if op == ">="@ {
        Some(Comparison::GreaterOrEqual)
    } else if op == ">"@ {
        Some(Comparison::Greater)
    } else if op == ""@ || op == "="@ || op == "=="@ {
        Some(Comparison::Equal)
    } else {
        None
    }
}

/// The comparison and the whole seconds that a text stands for as a
/// duration filter.
///
/// The text is taken without the white space around it. It is cut before
/// its first digit: what follows is the duration, what comes before, without
/// the white space around it, is the operator. A text without a digit is a
/// fault; then comes the duration's own fault; then an unknown operator.
pub open spec fn duration_filter_parsed(input: Seq<char>) -> Result<(Comparison, int), ErrorView> {
    let s = trimmed(input);
    let at = unit_run(s) as int;
    if at >= s.len() {
        Err(ErrorView::InvalidDurationFilter(s))
    } else {
        match parsed_duration(s.skip(at)) {
            Err(e) => Err(e),
            Ok(secs) => match comparison_named(trimmed(s.take(at))) {
                Some(c) => Ok((c, secs)),
                None => Err(ErrorView::InvalidDurationFilterOp(trimmed(s.take(at)), s)),
            },
        }
    }
}

impl DurationFilter {
    /// The comparison that the filter makes.
    pub open spec fn comparison(self) -> Comparison {
        match self {
            DurationFilter::LessThan(_) => Comparison::Less,
            DurationFilter::LessThanOrEqual(_) => Comparison::LessOrEqual,
            DurationFilter::GreaterThan(_) => Comparison::Greater,
            DurationFilter::GreaterThanOrEqual(_) => Comparison::GreaterOrEqual,
            DurationFilter::Equal(_) => Comparison::Equal,
        }
    }

    /// The length that the filter compares with.
    pub open spec fn bound(self) -> Duration {
        match self {
            DurationFilter::LessThan(d) => d,
            DurationFilter::LessThanOrEqual(d) => d,
            DurationFilter::GreaterThan(d) => d,
            DurationFilter::GreaterThanOrEqual(d) => d,
            DurationFilter::Equal(d) => d,
        }
    }

    /// Whether the filter wants the length `duration`.
    pub open spec fn accepts(self, duration: Duration) -> bool {
        match self {
            DurationFilter::LessThan(d) => duration.is_less(d),
            DurationFilter::LessThanOrEqual(d) => !d.is_less(duration),
            DurationFilter::GreaterThan(d) => d.is_less(duration),
            DurationFilter::GreaterThanOrEqual(d) => !duration.is_less(d),
            DurationFilter::Equal(d) => duration == d,
        }
    }

    /// Tells whether the filter wants the length `duration`.
    pub fn matches(&self, duration: Duration) -> (r: bool)
        ensures
            r == self.accepts(duration),
    {
        match self {
            DurationFilter::LessThan(d) => duration.less_than(d),
            DurationFilter::LessThanOrEqual(d) => !d.less_than(&duration),
            DurationFilter::GreaterThan(d) => d.less_than(&duration),
            DurationFilter::GreaterThanOrEqual(d) => !duration.less_than(d),
            DurationFilter::Equal(d) => duration == *d,
        }
    }

    /// Reads a filter such as `< 1h` or `>=30m`.
    pub fn from_str(s: &str) -> (r: Result<Self, Error>)
        ensures
            match r {
                Ok(f) => duration_filter_parsed(s@) == Ok::<(Comparison, int), ErrorView>(
                    (f.comparison(), f.bound().seconds()),
                ) && f.bound().subsec() == 0,
                Err(e) => duration_filter_parsed(s@) == Err::<(Comparison, int), ErrorView>(e@),
            },
    {
        let v = trim(&chars_of(s));
        let n = v.len();
        let mut at: usize = 0;
        while at < n && !crate::text::digit(v[at])
            invariant
                at <= n,
                n == v.len(),
                forall|k: int| 0 <= k < at ==> !is_digit(#[trigger] v@[k]),
            decreases n - at,
        {
            at = at + 1;
        }
        proof {
            lemma_unit_run(v@, at as int);
        }
        if at >= n {
            return Err(Error::InvalidDurationFilter(string_of(&v)));
        }
        let tail = string_of(&slice_of(&v, at, n));
        assert(tail@ == v@.skip(at as int));
        let duration = match Duration::from_str(tail.as_str()) {
            Ok(d) => d,
            Err(e) => {
                return Err(e);
            },
        };
        let op = trim(&slice_of(&v, 0, at));
        assert(v@.subrange(0, at as int) == v@.take(at as int));
        if spells(&op, "<=") {
            Ok(DurationFilter::LessThanOrEqual(duration))
        } else if spells(&op, "<") {
            Ok(DurationFilter::LessThan(duration))
        } else if spells(&op, ">=") {
            Ok(DurationFilter::GreaterThanOrEqual(duration))
        } else if spells(&op, ">") {
            Ok(DurationFilter::GreaterThan(duration))
        } else if spells(&op, "") || spells(&op, "=") || spells(&op, "==") {
            Ok(DurationFilter::Equal(duration))
        } else {
            Err(Error::InvalidDurationFilterOp(string_of(&op), string_of(&v)))
        }
    }
}

} // verus!
