//! Moments in time, each with the offset from UTC under which it is shown.

use vstd::prelude::*;
use vstd::arithmetic::div_mod::{lemma_fundamental_div_mod, lemma_mod_multiples_vanish};
use crate::calendar::{
    calendar_date, date_time_format, days_from_monday, first_of_month, first_of_year,
    format_date_time, format_rfc3339, midnight_of_date, offset_date_time_parse, parse_plain,
    parse_rfc3339, parse_time, parse_with_offset, plain_date_time_parse, rfc3339_moment,
    rfc3339_text, time_parse, MAX_LOCAL, MAX_OFFSET, MIN_LOCAL,
};
use crate::duration::Duration;
use crate::error::{Error, ErrorView};
use crate::text::{
    chars_of, lowered, owned, spells, split, split_on, string_of, texts, to_lowercase, trim,
    trimmed,
};

verus! {

/// A moment in time with an offset from UTC.
///
/// It holds the date and time that a clock set to the offset shows, as local
/// seconds (the seconds since 1970-01-01 00:00 that a UTC clock showing the
/// same would have counted), the nanoseconds within the second, and the
/// offset in seconds. The moment itself is the local seconds less the offset.
#[derive(Debug, Clone, Copy)]
pub struct Timestamp {
    local: i64,
    nanos: u32,
    offset: i32,
}

/// Whether local seconds, nanoseconds and an offset form a timestamp: the
/// local date lies between the years -9999 and 9999, the nanoseconds are
/// below a second, the offset is at most 25:59:59 either way.
pub open spec fn timestamp_parts_ok(local: int, nanos: int, offset: int) -> bool {
    &&& MIN_LOCAL <= local <= MAX_LOCAL
    &&& 0 <= nanos < 1_000_000_000
    &&& -MAX_OFFSET <= offset <= MAX_OFFSET
}

/// Local seconds of the midnight that starts the day of `local`.
pub open spec fn day_start(local: int) -> int {
    local - local % 86400
}

/// Local seconds of the midnight that starts the Monday of the week of
/// `local`. 1970-01-01, day 0, was a Thursday.
pub open spec fn week_start(local: int) -> int {
    day_start(local) - ((local / 86400 + 3) % 7) * 86400
}

/// Local seconds of the midnight that starts the first day of the month of
/// `local`.
fn month_start(local: i64) -> (r: i64)
    requires
        MIN_LOCAL <= local <= MAX_LOCAL,
    ensures
        r == first_of_month(local as int),
        MIN_LOCAL <= r <= local,
{
    let date = calendar_date(local);
    match midnight_of_date(date.0, date.1, 1) {
        Some(first) => first,
        None => local,
    }
}

/// Local seconds of the midnight that starts the first of January of the year
/// of `local`.
fn year_start(local: i64) -> (r: i64)
    requires
        MIN_LOCAL <= local <= MAX_LOCAL,
    ensures
        r == first_of_year(local as int),
        MIN_LOCAL <= r <= local,
{
    let date = calendar_date(local);
    match midnight_of_date(date.0, 1, 1) {
        Some(first) => first,
        None => local,
    }
}

impl Timestamp {
    /// The date and time shown, as local seconds.
    pub closed spec fn local(self) -> int {
        self.local as int
    }

    /// The nanoseconds within the second.
    pub closed spec fn subsec(self) -> int {
        self.nanos as int
    }

    /// The offset from UTC, in seconds; positive east of Greenwich.
    pub closed spec fn offset_secs(self) -> int {
        self.offset as int
    }

    /// The moment, in seconds since 1970-01-01 00:00 UTC.
    pub open spec fn instant(self) -> int {
        self.local() - self.offset_secs()
    }

    /// The invariant of the type.
    pub open spec fn wf(self) -> bool {
        timestamp_parts_ok(self.local(), self.subsec(), self.offset_secs())
    }

    #[verifier::type_invariant]
    spec fn inv(self) -> bool {
        timestamp_parts_ok(self.local as int, self.nanos as int, self.offset as int)
    }

    /// Whether the day of the timestamp has `back` whole days before it and
    /// `forward` whole days from its start on, within the dates that can be
    /// held.
    pub open spec fn has_room(self, back: int, forward: int) -> bool {
        &&& day_start(self.local()) - back * 86400 >= MIN_LOCAL
        &&& day_start(self.local()) + forward * 86400 <= MAX_LOCAL
    }

    /// Tells whether the day of the timestamp has `back` whole days before it
    /// and `forward` whole days from its start on.
    pub fn room(&self, back: u32, forward: u32) -> (r: bool)
        ensures
            r == self.has_room(back as int, forward as int),
    {
        let m = self.midnight();
        m - (back as i64) * 86400 >= MIN_LOCAL && m + (forward as i64) * 86400 <= MAX_LOCAL
    }

    /// Room for more days is room for fewer.
    pub proof fn lemma_room(self, back: int, forward: int, less_back: int, less_forward: int)
        requires
            self.has_room(back, forward),
            0 <= less_back <= back,
            0 <= less_forward <= forward,
        ensures
            self.has_room(less_back, less_forward),
    {
    }

    /// Two timestamps that show the same under the same offset are one and
    /// the same.
    pub proof fn lemma_equal(self, other: Timestamp)
        requires
            self.local() == other.local(),
            self.subsec() == other.subsec(),
            self.offset_secs() == other.offset_secs(),
        ensures
            self == other,
    {
    }

    /// The timestamp for a moment given in seconds since 1970-01-01 00:00 UTC
    /// and nanoseconds, shown under the given offset; nothing where the three
    /// do not form a timestamp.
    pub fn from_unix(secs: i64, nanos: u32, offset: i32) -> (r: Option<Self>)
        ensures
            r is Some <==> timestamp_parts_ok(secs + offset, nanos as int, offset as int),
            r matches Some(t) ==> t.instant() == secs && t.subsec() == nanos && t.offset_secs()
                == offset && t.wf(),
    {
        if nanos >= 1_000_000_000 || offset < -MAX_OFFSET || offset > MAX_OFFSET {
            return None;
        }
        if secs < MIN_LOCAL - 100_000 || secs > MAX_LOCAL + 100_000 {
            return None;
        }
        let local: i64 = secs + offset as i64;
        if local < MIN_LOCAL || local > MAX_LOCAL {
            return None;
        }
        Some(Timestamp { local, nanos, offset })
    }

    /// The moment, in seconds since 1970-01-01 00:00 UTC.
    pub fn unix_seconds(&self) -> (r: i64)
        ensures
            r == self.instant(),
            self.wf(),
    {
        proof {
            use_type_invariant(self);
        }
        self.local - self.offset as i64
    }

    /// The nanoseconds within the second.
    pub fn nanosecond(&self) -> (r: u32)
        ensures
            r == self.subsec(),
    {
        self.nanos
    }

    /// The offset from UTC, in seconds.
    pub fn offset_seconds(&self) -> (r: i32)
        ensures
            r == self.offset_secs(),
    {
        self.offset
    }

    /// Whether `self` is an earlier moment than `other`.
    pub open spec fn is_before(self, other: Timestamp) -> bool {
        self.instant() < other.instant() || (self.instant() == other.instant() && self.subsec()
            < other.subsec())
    }

    /// Whether `self` and `other` are the same moment, under whatever offsets.
    pub open spec fn is_same_moment(self, other: Timestamp) -> bool {
        self.instant() == other.instant() && self.subsec() == other.subsec()
    }

    /// Whether `self` is an earlier moment than `other`.
    pub fn before(&self, other: &Timestamp) -> (r: bool)
        ensures
            r == self.is_before(*other),
            self.wf(),
            other.wf(),
    {
        let a = self.unix_seconds();
        let b = other.unix_seconds();
        a < b || (a == b && self.nanos < other.nanos)
    }

    /// Whether `self` and `other` are the same moment.
    pub fn same_moment(&self, other: &Timestamp) -> (r: bool)
        ensures
            r == self.is_same_moment(*other),
    {
        let a = self.unix_seconds();
        let b = other.unix_seconds();
        a == b && self.nanos == other.nanos
    }

    /// The timestamp that shows `local` on the hour, under the offset of `self`.
    fn at_local(&self, local: i64) -> (r: Timestamp)
        requires
            MIN_LOCAL <= local <= MAX_LOCAL,
        ensures
            r.local() == local,
            r.subsec() == 0,
            r.offset_secs() == self.offset_secs(),
            r.wf(),
    {
        proof {
            use_type_invariant(self);
        }
        Timestamp { local, nanos: 0, offset: self.offset }
    }

    /// Local seconds of the start of the day.
    fn midnight(&self) -> (r: i64)
        ensures
            r == day_start(self.local()),
            MIN_LOCAL <= r <= self.local(),
            r % 86400 == 0,
            self.wf(),
    {
        proof {
            use_type_invariant(self);
        }
        let shifted: i64 = self.local - MIN_LOCAL;
        let within: i64 = shifted % 86400;
        proof {
            assert(MIN_LOCAL == -4371587 * 86400);
            lemma_mod_multiples_vanish(4371587, self.local as int, 86400);
            assert(within == self.local as int % 86400);
            lemma_fundamental_div_mod(self.local as int, 86400);
            lemma_fundamental_div_mod(shifted as int, 86400);
            let r = self.local - within;
            assert(r == 86400 * (self.local as int / 86400));
            assert(r == 86400 * (shifted as int / 86400) + MIN_LOCAL);
            assert(r % 86400 == 0) by {
                lemma_mod_multiples_vanish(self.local as int / 86400, 0, 86400);
            }
        }
        self.local - within
    }

    /// The beginning of the day of `self`.
    pub fn today(&self) -> (r: Self)
        ensures
            r.local() == day_start(self.local()),
            r.subsec() == 0,
            r.offset_secs() == self.offset_secs(),
    {
        let m = self.midnight();
        self.at_local(m)
    }

    /// The beginning of the day after that of `self`.
    pub fn tomorrow(&self) -> (r: Self)
        requires
            self.has_room(0, 1),
        ensures
            r.local() == day_start(self.local()) + 86400,
            r.subsec() == 0,
            r.offset_secs() == self.offset_secs(),
    {
        let m = self.midnight();
        self.at_local(m + 86400)
    }

    /// The beginning of the day before that of `self`.
    pub fn yesterday(&self) -> (r: Self)
        requires
            self.has_room(1, 0),
        ensures
            r.local() == day_start(self.local()) - 86400,
            r.subsec() == 0,
            r.offset_secs() == self.offset_secs(),
    {
        let m = self.midnight();
        self.at_local(m - 86400)
    }

    /// The beginning of the Monday of the week of `self`.
    pub fn this_week(&self) -> (r: Self)
        requires
            self.has_room(6, 0),
        ensures
            r.local() == week_start(self.local()),
            day_start(self.local()) - 6 * 86400 <= r.local() <= day_start(self.local()),
            r.subsec() == 0,
            r.offset_secs() == self.offset_secs(),
    {
        let m = self.midnight();
        let days = days_from_monday(m);
        proof {
            lemma_fundamental_div_mod(self.local() as int, 86400);
            lemma_fundamental_div_mod(m as int, 86400);
            assert(m as int / 86400 == self.local() / 86400) by {
                vstd::arithmetic::div_mod::lemma_div_multiples_vanish(
                    self.local() / 86400,
                    86400,
                );
                assert(m == 86400 * (self.local() / 86400));
                assert(86400 * (self.local() / 86400) == (self.local() / 86400) * 86400);
            }
        }
        self.at_local(m - (days as i64) * 86400)
    }

    /// The beginning of the Monday after the week of `self`.
    pub fn next_week(&self) -> (r: Self)
        requires
            self.has_room(6, 7),
        ensures
            r.local() == week_start(self.local()) + 7 * 86400,
            r.subsec() == 0,
            r.offset_secs() == self.offset_secs(),
    {
        let monday = self.this_week();
        proof {
            use_type_invariant(monday);
        }
        self.at_local(monday.local + 7 * 86400)
    }

    /// The beginning of the day that lies `days` days before that of `self`.
    pub fn days_back(&self, days: u16) -> (r: Self)
        requires
            self.has_room(days as int, 0),
        ensures
            r.local() == day_start(self.local()) - days * 86400,
            r.subsec() == 0,
            r.offset_secs() == self.offset_secs(),
    {
        let m = self.midnight();
        self.at_local(m - (days as i64) * 86400)
    }

    /// The moment that lies `days` whole days before `self`, to the
    /// nanosecond, under the same offset.
    pub fn earlier_by_days(&self, days: u16) -> (r: Self)
        requires
            self.local() - days * 86400 >= MIN_LOCAL,
        ensures
            r.local() == self.local() - days * 86400,
            r.subsec() == self.subsec(),
            r.offset_secs() == self.offset_secs(),
    {
        proof {
            use_type_invariant(self);
        }
        Timestamp {
            local: self.local - (days as i64) * 86400,
            nanos: self.nanos,
            offset: self.offset,
        }
    }

    /// The beginning of the day that lies `days` days after that of `self`.
    pub fn days_forward(&self, days: u16) -> (r: Self)
        requires
            self.has_room(0, days as int),
        ensures
            r.local() == day_start(self.local()) + days * 86400,
            r.subsec() == 0,
            r.offset_secs() == self.offset_secs(),
    {
        let m = self.midnight();
        self.at_local(m + (days as i64) * 86400)
    }

    /// The beginning of the first day of the month of `self`.
    pub fn this_month(&self) -> (r: Self)
        ensures
            r.local() == first_of_month(day_start(self.local())),
            r.local() <= day_start(self.local()),
            r.subsec() == 0,
            r.offset_secs() == self.offset_secs(),
    {
        let m = self.midnight();
        self.at_local(month_start(m))
    }

    /// The beginning of the first day of the month after that of `self`:
    /// the first of the month in which the 32nd day after the first of this
    /// month falls.
    pub fn next_month(&self) -> (r: Self)
        requires
            self.has_room(0, 32),
        ensures
            r.local() == first_of_month(first_of_month(day_start(self.local())) + 32 * 86400),
            r.subsec() == 0,
            r.offset_secs() == self.offset_secs(),
    {
        let m = self.midnight();
        let first = month_start(m);
        self.at_local(month_start(first + 32 * 86400))
    }

    /// The beginning of the first of January of the year of `self`.
    pub fn this_year(&self) -> (r: Self)
        ensures
            r.local() == first_of_year(day_start(self.local())),
            r.local() <= day_start(self.local()),
            r.subsec() == 0,
            r.offset_secs() == self.offset_secs(),
    {
        let m = self.midnight();
        self.at_local(year_start(m))
    }

    /// The beginning of the first of January of the year after that of
    /// `self`: the first of January of the year in which the 366th day after
    /// the first of January of this year falls.
    pub fn next_year(&self) -> (r: Self)
        requires
            self.has_room(0, 366),
        ensures
            r.local() == first_of_year(first_of_year(day_start(self.local())) + 366 * 86400),
            r.subsec() == 0,
            r.offset_secs() == self.offset_secs(),
    {
        let m = self.midnight();
        let first = year_start(m);
        self.at_local(year_start(first + 366 * 86400))
    }
}

} // verus!

verus! {

impl PartialEq for Timestamp {
    /// Two timestamps are equal when they are the same moment, whatever their
    /// offsets.
    fn eq(&self, other: &Self) -> (r: bool) {
        self.same_moment(other)
    }
}

impl vstd::std_specs::cmp::PartialEqSpecImpl for Timestamp {
    open spec fn obeys_eq_spec() -> bool {
        true
    }

    open spec fn eq_spec(&self, other: &Self) -> bool {
        self.is_same_moment(*other)
    }
}

/// The formats of a date and time without offset, in the order in which they
/// are tried.
pub open spec fn plain_formats() -> Seq<Seq<char>> {
    seq![
        "[year]-[month]-[day]T[hour]:[minute]"@,
        "[year]-[month]-[day] [hour]:[minute]"@,
        "[year]-[month]-[day]T[hour]:[minute]:[second]"@,
        "[year]-[month]-[day] [hour]:[minute]:[second]"@,
    ]
}

/// The formats of a date and time with offset, in the order in which they are
/// tried.
pub open spec fn offset_formats() -> Seq<Seq<char>> {
    seq![
        "[year]-[month]-[day]T[hour]:[minute] [offset_hour sign:mandatory]:[offset_minute]"@,
        "[year]-[month]-[day] [hour]:[minute] [offset_hour sign:mandatory]:[offset_minute]"@,
        "[year]-[month]-[day]T[hour]:[minute]:[second] [offset_hour sign:mandatory]:[offset_minute]"@,
        "[year]-[month]-[day] [hour]:[minute]:[second] [offset_hour sign:mandatory]:[offset_minute]"@,
    ]
}

/// The formats of a time of day, in the order in which they are tried.
pub open spec fn time_formats() -> Seq<Seq<char>> {
    seq!["[hour]:[minute]"@, "[hour]h[minute]"@, "[hour]:[minute]:[second]"@]
}

/// The format in which a timestamp is written for people.
pub open spec fn display_format() -> Seq<char> {
    "[year]-[month]-[day] [hour]:[minute] [offset_hour sign:mandatory]"@
}

fn plain_format(i: usize) -> (r: &'static str)
    requires
        i < 4,
    ensures
        r@ == plain_formats()[i as int],
{
    if i == 0 {
        "[year]-[month]-[day]T[hour]:[minute]"
    } else if i == 1 {
        "[year]-[month]-[day] [hour]:[minute]"
    } else if i == 2 {
        "[year]-[month]-[day]T[hour]:[minute]:[second]"
    } else {
        "[year]-[month]-[day] [hour]:[minute]:[second]"
    }
}

fn offset_format(i: usize) -> (r: &'static str)
    requires
        i < 4,
    ensures
        r@ == offset_formats()[i as int],
{
    if i == 0 {
        "[year]-[month]-[day]T[hour]:[minute] [offset_hour sign:mandatory]:[offset_minute]"
    } else if i == 1 {
        "[year]-[month]-[day] [hour]:[minute] [offset_hour sign:mandatory]:[offset_minute]"
    } else if i == 2 {
        "[year]-[month]-[day]T[hour]:[minute]:[second] [offset_hour sign:mandatory]:[offset_minute]"
    } else {
        "[year]-[month]-[day] [hour]:[minute]:[second] [offset_hour sign:mandatory]:[offset_minute]"
    }
}

fn time_format(i: usize) -> (r: &'static str)
    requires
        i < 3,
    ensures
        r@ == time_formats()[i as int],
{
    if i == 0 {
        "[hour]:[minute]"
    } else if i == 1 {
        "[hour]h[minute]"
    } else {
        "[hour]:[minute]:[second]"
    }
}

/// What the first format from `from` on that fits `s` reads from it as a date
/// and time without offset; nothing where none fits. A malformed format that
/// is reached before any fits is a fault.
pub open spec fn first_plain(s: Seq<char>, from: int) -> Result<Option<(int, int)>, Seq<char>>
    decreases plain_formats().len() - from,
{
    if from < 0 || from >= plain_formats().len() {
        Ok(None)
    } else {
        match plain_date_time_parse(s, plain_formats()[from]) {
            Ok(None) => first_plain(s, from + 1),
            other => other,
        }
    }
}

/// The same, for a date and time with offset.
pub open spec fn first_offset(s: Seq<char>, from: int) -> Result<
    Option<(int, int, int)>,
    Seq<char>,
>
    decreases offset_formats().len() - from,
{
    if from < 0 || from >= offset_formats().len() {
        Ok(None)
    } else {
        match offset_date_time_parse(s, offset_formats()[from]) {
            Ok(None) => first_offset(s, from + 1),
            other => other,
        }
    }
}

/// The same, for a time of day.
pub open spec fn first_time(s: Seq<char>, from: int) -> Result<
    Option<(int, int, int, int)>,
    Seq<char>,
>
    decreases time_formats().len() - from,
{
    if from < 0 || from >= time_formats().len() {
        Ok(None)
    } else {
        match time_parse(s, time_formats()[from]) {
            Ok(None) => first_time(s, from + 1),
            other => other,
        }
    }
}

/// The shift in seconds that a day prefix stands for: a day back for
/// `yesterday` or `yst`, a day on for `tomorrow` or `tmrw`.
pub open spec fn prefix_shift(p: Seq<char>) -> Option<int> {
    if p == "yesterday"@ || p == "yst"@ {
        Some(-86400int)
    } else if p == "tomorrow"@ || p == "tmrw"@ {
        Some(86400int)
    } else {
        None
    }
}

/// The shift and the time text of a time of day with an optional day prefix,
/// as in `yesterday@10:00`.
///
/// The text is taken in lower case and cut at `@`. One piece is a time alone,
/// with no shift. Two pieces are a prefix and a time. Pieces are taken
/// without the white space around them. More pieces, or an unknown prefix,
/// are a fault.
pub open spec fn prefix_offset(ts: Seq<char>) -> Result<(int, Seq<char>), ErrorView> {
    let parts = split_on(lowered(ts), '@');
    if parts.len() == 2 {
        match prefix_shift(trimmed(parts[0])) {
            Some(shift) => Ok((shift, trimmed(parts[1]))),
            None => Err(ErrorView::InvalidDateTime(ts)),
        }
    } else if parts.len() == 1 {
        Ok((0int, trimmed(parts[0])))
    } else {
        Err(ErrorView::InvalidDateTime(ts))
    }
}

/// Splits a time of day from its optional day prefix.
pub fn parse_prefix_offset(ts: &str) -> (r: Result<(Duration, String), Error>)
    ensures
        match r {
            Ok(p) => prefix_offset(ts@) == Ok::<(int, Seq<char>), ErrorView>(
                (p.0.seconds(), p.1@),
            ) && p.0.subsec() == 0,
            Err(e) => prefix_offset(ts@) == Err::<(int, Seq<char>), ErrorView>(e@),
        },
{
    let lower = to_lowercase(ts);
    let v = chars_of(lower.as_str());
    let parts = split(&v, '@');
    assert(texts(parts@).len() == parts@.len());
    if parts.len() == 2 {
        assert(texts(parts@)[0] == parts@[0]@);
        assert(texts(parts@)[1] == parts@[1]@);
        let prefix = trim(&parts[0]);
        let suffix = string_of(&trim(&parts[1]));
        if spells(&prefix, "yesterday") || spells(&prefix, "yst") {
            Ok((Duration::from_seconds(-86400), suffix))
        } else if spells(&prefix, "tomorrow") || spells(&prefix, "tmrw") {
            Ok((Duration::from_seconds(86400), suffix))
        } else {
            Err(Error::InvalidDateTime(owned(ts)))
        }
    } else if parts.len() == 1 {
        assert(texts(parts@)[0] == parts@[0]@);
        Ok((Duration::zero(), string_of(&trim(&parts[0]))))
    } else {
        Err(Error::InvalidDateTime(owned(ts)))
    }
}

/// What a text stands for as a timestamp, read at the moment `now`: local
/// seconds, nanoseconds and offset, or the fault.
///
/// In this order: the word `now`; a date and time without offset, which takes
/// the offset of `now`; a date and time with its own offset; a time of day,
/// with an optional day prefix, on the day of `now` and under its offset.
pub open spec fn parsed_timestamp(s: Seq<char>, now: Timestamp) -> Result<
    (int, int, int),
    ErrorView,
> {
    if trimmed(s) == "now"@ {
        Ok((now.local(), now.subsec(), now.offset_secs()))
    } else {
        match first_plain(s, 0) {
            Err(m) => Err(ErrorView::InvalidDateTimeFormat(m)),
            Ok(Some(p)) => Ok((p.0, p.1, now.offset_secs())),
            Ok(None) => match first_offset(s, 0) {
                Err(m) => Err(ErrorView::InvalidDateTimeFormat(m)),
                Ok(Some(p)) => Ok((p.0 + p.2, p.1, p.2)),
                Ok(None) => match prefix_offset(s) {
                    Err(e) => Err(e),
                    Ok(shifted) => match first_time(shifted.1, 0) {
                        Err(m) => Err(ErrorView::InvalidDateTimeFormat(m)),
                        Ok(Some(t)) => Ok(
                            (
                                day_start(now.local()) + t.0 * 3600 + t.1 * 60 + t.2 + shifted.0,
                                t.3,
                                now.offset_secs(),
                            ),
                        ),
                        Ok(None) => Err(ErrorView::InvalidDateTime(s)),
                    },
                },
            },
        }
    }
}

/// Reads a timestamp as people write it, at the moment `local_now`.
#[verifier::loop_isolation(false)]
pub fn parse_timestamp(ts: &str, local_now: &Timestamp) -> (r: Result<Timestamp, Error>)
    requires
        local_now.has_room(1, 2),
    ensures
        match r {
            Ok(t) => parsed_timestamp(ts@, *local_now) == Ok::<(int, int, int), ErrorView>(
                (t.local(), t.subsec(), t.offset_secs()),
            ),
            Err(e) => parsed_timestamp(ts@, *local_now) == Err::<(int, int, int), ErrorView>(e@),
        },
{
    proof {
        use_type_invariant(local_now);
    }
    let v = chars_of(ts);
    if spells(&trim(&v), "now") {
        return Ok(*local_now);
    }
    let mut i: usize = 0;
    while i < 4
        invariant
            i <= 4,
            first_plain(ts@, 0) == first_plain(ts@, i as int),
            timestamp_parts_ok(
                local_now.local as int,
                local_now.nanos as int,
                local_now.offset as int,
            ),
        decreases 4 - i,
    {
        match parse_plain(ts, plain_format(i)) {
            Err(m) => {
                return Err(Error::InvalidDateTimeFormat(m));
            },
            Ok(Some(p)) => {
                return Ok(Timestamp { local: p.0, nanos: p.1, offset: local_now.offset });
            },
            Ok(None) => {},
        }
        i = i + 1;
    }
    let mut i: usize = 0;
    while i < 4
        invariant
            i <= 4,
            first_offset(ts@, 0) == first_offset(ts@, i as int),
        decreases 4 - i,
    {
        match parse_with_offset(ts, offset_format(i)) {
            Err(m) => {
                return Err(Error::InvalidDateTimeFormat(m));
            },
            Ok(Some(p)) => {
                return Ok(Timestamp { local: p.0 + p.2 as i64, nanos: p.1, offset: p.2 });
            },
            Ok(None) => {},
        }
        i = i + 1;
    }
    let (shift, rest) = match parse_prefix_offset(ts) {
        Ok(p) => p,
        Err(e) => {
            return Err(e);
        },
    };
    let m = local_now.midnight();
    let mut i: usize = 0;
    while i < 3
        invariant
            i <= 3,
            first_time(rest@, 0) == first_time(rest@, i as int),
            shift.seconds() == -86400 || shift.seconds() == 0 || shift.seconds() == 86400,
            m == day_start(local_now.local()),
            local_now.has_room(1, 2),
            timestamp_parts_ok(
                local_now.local as int,
                local_now.nanos as int,
                local_now.offset as int,
            ),
        decreases 3 - i,
    {
        match parse_time(rest.as_str(), time_format(i)) {
            Err(e) => {
                return Err(Error::InvalidDateTimeFormat(e));
            },
            Ok(Some(t)) => {
                let local: i64 = m + (t.0 as i64) * 3600 + (t.1 as i64) * 60 + (t.2 as i64)
                    + shift.whole_seconds();
                return Ok(Timestamp { local, nanos: t.3, offset: local_now.offset });
            },
            Ok(None) => {},
        }
        i = i + 1;
    }
    Err(Error::InvalidDateTime(owned(ts)))
}

impl Timestamp {
    /// Reads a timestamp as people write it, at the moment `now`.
    pub fn parse(s: &str, now: Self) -> (r: Result<Self, Error>)
        requires
            now.has_room(1, 2),
        ensures
            match r {
                Ok(t) => parsed_timestamp(s@, now) == Ok::<(int, int, int), ErrorView>(
                    (t.local(), t.subsec(), t.offset_secs()),
                ),
                Err(e) => parsed_timestamp(s@, now) == Err::<(int, int, int), ErrorView>(e@),
            },
    {
        parse_timestamp(s, &now)
    }

    /// Writes the timestamp for people: date, hour and minute, and the hours
    /// of the offset with their sign. Where the calendar cannot write it, the
    /// text is empty.
    pub fn to_string(&self) -> (r: String)
        ensures
            r@ == match date_time_format(
                self.local(),
                self.subsec(),
                self.offset_secs(),
                display_format(),
            ) {
                Ok(t) => t,
                Err(_) => Seq::<char>::empty(),
            },
    {
        proof {
            use_type_invariant(self);
        }
        match format_date_time(
            self.local,
            self.nanos,
            self.offset,
            "[year]-[month]-[day] [hour]:[minute] [offset_hour sign:mandatory]",
        ) {
            Ok(t) => t,
            Err(_) => String::new(),
        }
    }

    /// Writes the timestamp as documents hold it, in the form of RFC 3339;
    /// nothing where that form cannot write it.
    pub fn to_rfc3339(&self) -> (r: Option<String>)
        ensures
            match r {
                Some(t) => rfc3339_text(self.local(), self.subsec(), self.offset_secs()) == Some(
                    t@,
                ),
                None => rfc3339_text(self.local(), self.subsec(), self.offset_secs()) is None,
            },
    {
        proof {
            use_type_invariant(self);
        }
        format_rfc3339(self.local, self.nanos, self.offset)
    }

    /// Reads a timestamp as documents hold it, in the form of RFC 3339;
    /// nothing where the text is not in that form.
    pub fn from_rfc3339(s: &str) -> (r: Option<Timestamp>)
        ensures
            match r {
                Some(t) => rfc3339_moment(s@) == Some((t.instant(), t.subsec(), t.offset_secs())),
                None => rfc3339_moment(s@) is None,
            },
    {
        match parse_rfc3339(s) {
            Some(p) => Some(Timestamp { local: p.0 + p.2 as i64, nanos: p.1, offset: p.2 }),
            None => None,
        }
    }

    /// The time from `earlier` to `self`; negative where `self` is the earlier
    /// of the two.
    pub fn since(&self, earlier: &Timestamp) -> (r: Duration)
        ensures
            r.seconds() * 1_000_000_000 + r.subsec() == (self.instant() - earlier.instant())
                * 1_000_000_000 + (self.subsec() - earlier.subsec()),
            r.wf(),
    {
        proof {
            use_type_invariant(self);
            use_type_invariant(earlier);
        }
        let mut secs: i64 = self.unix_seconds() - earlier.unix_seconds();
        let mut nanos: i32 = self.nanos as i32 - earlier.nanos as i32;
        if secs > 0 && nanos < 0 {
            secs = secs - 1;
            nanos = nanos + 1_000_000_000;
        } else if secs < 0 && nanos > 0 {
            secs = secs + 1;
            nanos = nanos - 1_000_000_000;
        }
        match Duration::from_parts(secs, nanos) {
            Some(d) => d,
            None => Duration::zero(),
        }
    }

    /// The moment that lies `length` after `self`, under the same offset;
    /// nothing where that moment is outside the dates that can be held.
    pub fn checked_add(&self, length: &Duration) -> (r: Option<Timestamp>)
        ensures
            ({
                let total = self.local() * 1_000_000_000 + self.subsec() + length.seconds()
                    * 1_000_000_000 + length.subsec();
                &&& r is Some <==> MIN_LOCAL * 1_000_000_000 <= total < (MAX_LOCAL + 1)
                    * 1_000_000_000
                &&& r matches Some(t) ==> t.local() * 1_000_000_000 + t.subsec() == total
                    && t.offset_secs() == self.offset_secs()
            }),
    {
        proof {
            use_type_invariant(self);
        }
        let secs = length.whole_seconds();
        let part = length.subsec_nanoseconds();
        if secs < -1_000_000_000_000 || secs > 1_000_000_000_000 {
            return None;
        }
        let mut local: i64 = self.local + secs;
        let mut nanos: i64 = self.nanos as i64 + part as i64;
        if nanos < 0 {
            nanos = nanos + 1_000_000_000;
            local = local - 1;
        } else if nanos >= 1_000_000_000 {
            nanos = nanos - 1_000_000_000;
            local = local + 1;
        }
        if local < MIN_LOCAL || local > MAX_LOCAL {
            return None;
        }
        Some(Timestamp { local, nanos: nanos as u32, offset: self.offset })
    }
}

} // verus!
