//! Work logs: spans of time spent on a project or on one of its tasks.

use vstd::prelude::*;
use crate::duration::Duration;
use crate::error::{Error, ErrorView};
use crate::filter::{
    Comparison, DurationFilter, Filter, FilterSpec, TimestampFilter, TimestampFilterView,
};
use crate::project::{copy_optional, optional_text};
use crate::ranking::{
    lemma_optional_length_ranked, lemma_optional_moment_ranked, lemma_optional_number_ranked,
    lemma_optional_text_ranked, optional_length_relation,
};
use crate::sort::{
    optional_moment_order, optional_moment_relation, optional_number_order,
    optional_number_relation, optional_text_order, optional_text_relation, Comparator, Order,
    Relation, SortSpec,
};
use crate::tags::{collect_tags, copy_lines, share_one, tags_intersect, tags_of};
use crate::task::{holds_number, optional_str, Task, TaskView};
use crate::text::{chars_of, lines, owned, same_text, spells, string_of};
use crate::timestamp::Timestamp;

verus! {

/// A log of work done or under way. It belongs to a project and perhaps to
/// one of the project's tasks.
///
/// A log with a start and no duration is open: it is being tracked. A log with
/// both is closed. When it stopped is never held; it follows from the two.
#[derive(Debug, PartialEq)]
pub struct Log {
    maybe_project_id: Option<String>,
    maybe_task_id: Option<u32>,
    maybe_id: Option<u32>,
    maybe_start: Option<Timestamp>,
    maybe_duration: Option<Duration>,
    maybe_comment: Option<String>,
    tags: Vec<String>,
    maybe_task: Option<Task>,
}

/// What a [`Log`] holds.
pub struct LogView {
    pub project_id: Option<Seq<char>>,
    pub task_id: Option<u32>,
    pub id: Option<u32>,
    pub start: Option<Timestamp>,
    pub duration: Option<Duration>,
    pub comment: Option<Seq<char>>,
    pub tags: Seq<Seq<char>>,
    pub task: Option<TaskView>,
}

impl LogView {
    /// Whether the log is being tracked: started and not yet stopped.
    pub open spec fn is_open(self) -> bool {
        self.start is Some && self.duration is None
    }

    /// Whether the log is finished: started and stopped.
    pub open spec fn is_closed(self) -> bool {
        self.start is Some && self.duration is Some
    }
}

impl View for Log {
    type V = LogView;

    closed spec fn view(&self) -> LogView {
        LogView {
            project_id: optional_text(self.maybe_project_id),
            task_id: self.maybe_task_id,
            id: self.maybe_id,
            start: self.maybe_start,
            duration: self.maybe_duration,
            comment: optional_text(self.maybe_comment),
            tags: lines(self.tags@),
            task: match self.maybe_task {
                Some(t) => Some(t@),
                None => None,
            },
        }
    }
}

impl Clone for Log {
    fn clone(&self) -> (r: Self)
        ensures
            r@ == self@,
    {
        Log {
            maybe_project_id: copy_optional(&self.maybe_project_id),
            maybe_task_id: self.maybe_task_id,
            maybe_id: self.maybe_id,
            maybe_start: self.maybe_start,
            maybe_duration: self.maybe_duration,
            maybe_comment: copy_optional(&self.maybe_comment),
            tags: copy_lines(&self.tags),
            maybe_task: match &self.maybe_task {
                Some(t) => Some(t.clone()),
                None => None,
            },
        }
    }
}

/// The time from `start` to `stop` as whole seconds and nanoseconds, which
/// never differ in sign.
pub open spec fn span_is(d: Duration, start: Timestamp, stop: Timestamp) -> bool {
    &&& d.wf()
    &&& d.seconds() * 1_000_000_000 + d.subsec() == (stop.instant() - start.instant())
        * 1_000_000_000 + (stop.subsec() - start.subsec())
}

/// What stopping a log at `stop` gives: a fault where the log has no start
/// or the stop lies before it, else the log with the time between the two as
/// its duration.
pub open spec fn stopped(log: LogView, stop: Timestamp, r: Result<LogView, ErrorView>) -> bool {
    match log.start {
        None => r == Err::<LogView, ErrorView>(ErrorView::LogWithoutStartCannotStop),
        Some(start) => if stop.is_before(start) {
            r == Err::<LogView, ErrorView>(ErrorView::LogCannotStopBeforeStart)
        } else {
            r matches Ok(v) && v.duration matches Some(d) && span_is(d, start, stop) && v == (LogView {
                duration: Some(d),
                ..log
            })
        },
    }
}

/// What giving a log a duration or a stop time gives: a fault where both are
/// given, the log with the duration, the log stopped, or the log as it is.
pub open spec fn with_duration_or_stop(
    log: LogView,
    maybe_duration: Option<Duration>,
    maybe_stop: Option<Timestamp>,
    r: Result<LogView, ErrorView>,
) -> bool {
    match (maybe_duration, maybe_stop) {
        (Some(_), Some(_)) => r == Err::<LogView, ErrorView>(
            ErrorView::CannotAcceptDurationAndStop,
        ),
        (Some(d), None) => r == Ok::<LogView, ErrorView>(LogView { duration: Some(d), ..log }),
        (None, Some(stop)) => stopped(log, stop, r),
        (None, None) => r == Ok::<LogView, ErrorView>(log),
    }
}

/// The view of a result.
pub open spec fn log_result(r: Result<Log, Error>) -> Result<LogView, ErrorView> {
    match r {
        Ok(l) => Ok(l@),
        Err(e) => Err(e@),
    }
}

impl Log {
    /// A log of this project and nothing else.
    pub fn new(project_id: &str) -> (r: Self)
        ensures
            r@ == (LogView {
                project_id: Some(project_id@),
                task_id: None,
                id: None,
                start: None,
                duration: None,
                comment: None,
                tags: Seq::empty(),
                task: None,
            }),
    {
        let tags: Vec<String> = Vec::new();
        assert(lines(tags@) == Seq::<Seq<char>>::empty());
        Log {
            maybe_project_id: Some(owned(project_id)),
            maybe_task_id: None,
            maybe_id: None,
            maybe_start: None,
            maybe_duration: None,
            maybe_comment: None,
            tags,
            maybe_task: None,
        }
    }

    /// The log as one of this project.
    pub fn with_project_id(self, project_id: &str) -> (r: Self)
        ensures
            r@ == (LogView { project_id: Some(project_id@), ..self@ }),
    {
        Log { maybe_project_id: Some(owned(project_id)), ..self }
    }

    /// The log as one of this project, or of none.
    pub fn with_maybe_project_id(self, maybe_project_id: Option<String>) -> (r: Self)
        ensures
            r@ == (LogView { project_id: optional_text(maybe_project_id), ..self@ }),
    {
        Log { maybe_project_id, ..self }
    }

    /// The log as one of the task with this number.
    pub fn with_task_id(self, task_id: u32) -> (r: Self)
        ensures
            r@ == (LogView { task_id: Some(task_id), ..self@ }),
    {
        Log { maybe_task_id: Some(task_id), ..self }
    }

    /// The log as one of the task with this number, or of none.
    pub fn with_maybe_task_id(self, maybe_task_id: Option<u32>) -> (r: Self)
        ensures
            r@ == (LogView { task_id: maybe_task_id, ..self@ }),
    {
        Log { maybe_task_id, ..self }
    }

    /// The log with this number.
    pub fn with_id(self, id: u32) -> (r: Self)
        ensures
            r@ == (LogView { id: Some(id), ..self@ }),
    {
        Log { maybe_id: Some(id), ..self }
    }

    /// The log as started at this moment.
    pub fn with_start(self, start: Timestamp) -> (r: Self)
        ensures
            r@ == (LogView { start: Some(start), ..self@ }),
    {
        Log { maybe_start: Some(start), ..self }
    }

    /// The log as started at this moment, or not at all.
    pub fn with_maybe_start(self, maybe_start: Option<Timestamp>) -> (r: Self)
        ensures
            r@ == (LogView { start: maybe_start, ..self@ }),
    {
        Log { maybe_start, ..self }
    }

    /// The log as stopped at this moment: its duration becomes the time from
    /// its start to the stop.
    pub fn with_stop(self, stop: Timestamp) -> (r: Result<Self, Error>)
        ensures
            stopped(self@, stop, log_result(r)),
    {
        let start = match self.maybe_start {
            Some(start) => start,
            None => {
                return Err(Error::LogWithoutStartCannotStop);
            },
        };
        if stop.before(&start) {
            return Err(Error::LogCannotStopBeforeStart);
        }
        let duration = stop.since(&start);
        Ok(Log { maybe_duration: Some(duration), ..self })
    }

    /// The log as stopped at this moment, or as it is where none is given.
    pub fn with_maybe_stop(self, maybe_stop: Option<Timestamp>) -> (r: Result<Self, Error>)
        ensures
            match maybe_stop {
                Some(stop) => stopped(self@, stop, log_result(r)),
                None => log_result(r) == Ok::<LogView, ErrorView>(self@),
            },
    {
        match maybe_stop {
            Some(stop) => self.with_stop(stop),
            None => Ok(self),
        }
    }

    /// The log with this duration.
    pub fn with_duration(self, duration: Duration) -> (r: Self)
        ensures
            r@ == (LogView { duration: Some(duration), ..self@ }),
    {
        self.with_maybe_duration(Some(duration))
    }

    /// The log with this duration, or without one.
    pub fn with_maybe_duration(self, maybe_duration: Option<Duration>) -> (r: Self)
        ensures
            r@ == (LogView { duration: maybe_duration, ..self@ }),
    {
        Log { maybe_duration, ..self }
    }

    /// The log with this duration, or stopped at this moment, or as it is
    /// where neither is given. Both together are refused.
    pub fn with_maybe_duration_or_stop(
        self,
        maybe_duration: Option<Duration>,
        maybe_stop: Option<Timestamp>,
    ) -> (r: Result<Self, Error>)
        ensures
            with_duration_or_stop(self@, maybe_duration, maybe_stop, log_result(r)),
    {
        match (maybe_duration, maybe_stop) {
            (Some(_), Some(_)) => Err(Error::CannotAcceptDurationAndStop),
            (Some(duration), None) => Ok(self.with_duration(duration)),
            (None, Some(stop)) => self.with_stop(stop),
            (None, None) => Ok(self),
        }
    }

    /// The log with this duration, or stopped at this moment, or, where
    /// neither is given, stopped at the moment `now`.
    pub fn with_duration_or_stop_or_now(
        self,
        maybe_duration: Option<Duration>,
        maybe_stop: Option<Timestamp>,
        now: Timestamp,
    ) -> (r: Result<Self, Error>)
        ensures
            match (maybe_duration, maybe_stop) {
                (None, None) => stopped(self@, now, log_result(r)),
                _ => with_duration_or_stop(self@, maybe_duration, maybe_stop, log_result(r)),
            },
    {
        if maybe_duration.is_none() && maybe_stop.is_none() {
            self.with_stop(now)
        } else {
            self.with_maybe_duration_or_stop(maybe_duration, maybe_stop)
        }
    }

    /// The log with this comment.
    pub fn with_comment(self, comment: &str) -> (r: Self)
        ensures
            r@ == (LogView { comment: Some(comment@), ..self@ }),
    {
        Log { maybe_comment: Some(owned(comment)), ..self }
    }

    /// The log with this comment, or without one.
    pub fn with_maybe_comment(self, maybe_comment: Option<String>) -> (r: Self)
        ensures
            r@ == (LogView { comment: optional_text(maybe_comment), ..self@ }),
    {
        Log { maybe_comment, ..self }
    }

    /// The log with these tags in place of those it had. Each tag is taken
    /// in lower case, and once.
    pub fn with_tags(self, tags: Vec<String>) -> (r: Result<Self, Error>)
        ensures
            match r {
                Ok(p) => tags_of(lines(tags@)) matches Ok(t) && p@ == (LogView { tags: t, ..self@ }),
                Err(e) => tags_of(lines(tags@)) == Err::<Seq<Seq<char>>, ErrorView>(e@),
            },
    {
        match collect_tags(&tags) {
            Ok(tags) => Ok(Log { tags, ..self }),
            Err(e) => Err(e),
        }
    }

    /// The log with the details of its task, or without them. The number of
    /// the task follows: it is that of the task given, and none where no task
    /// is given or the task has no number.
    pub fn with_maybe_task(self, maybe_task: Option<Task>) -> (r: Self)
        ensures
            r@ == (LogView {
                task_id: match maybe_task {
                    Some(t) => t@.id,
                    None => None,
                },
                task: match maybe_task {
                    Some(t) => Some(t@),
                    None => None,
                },
                ..self@
            }),
    {
        let maybe_task_id = match &maybe_task {
            Some(t) => t.id(),
            None => None,
        };
        Log { maybe_task_id, maybe_task, ..self }
    }

    /// The identifier of the project.
    pub fn project_id(&self) -> (r: Option<&str>)
        ensures
            match r {
                Some(t) => self@.project_id == Some(t@),
                None => self@.project_id is None,
            },
    {
        optional_str(&self.maybe_project_id)
    }

    /// The number of the task.
    pub fn task_id(&self) -> (r: Option<u32>)
        ensures
            r == self@.task_id,
    {
        self.maybe_task_id
    }

    /// The number of the log.
    pub fn id(&self) -> (r: Option<u32>)
        ensures
            r == self@.id,
    {
        self.maybe_id
    }

    /// When the log started.
    pub fn start(&self) -> (r: Option<Timestamp>)
        ensures
            r == self@.start,
    {
        self.maybe_start
    }

    /// When the log stopped: its start and its duration together. Nothing
    /// where one of the two is missing, or where the moment lies outside the
    /// dates that can be held.
    pub fn stop(&self) -> (r: Option<Timestamp>)
        ensures
            match (self@.start, self@.duration) {
                (Some(start), Some(duration)) => ({
                    let total = start.local() * 1_000_000_000 + start.subsec() + duration.seconds()
                        * 1_000_000_000 + duration.subsec();
                    &&& r is Some <==> crate::calendar::MIN_LOCAL * 1_000_000_000 <= total < (
                    crate::calendar::MAX_LOCAL + 1) * 1_000_000_000
                    &&& r matches Some(t) ==> t.local() * 1_000_000_000 + t.subsec() == total
                        && t.offset_secs() == start.offset_secs()
                }),
                _ => r is None,
            },
    {
        match (self.maybe_start, self.maybe_duration) {
            (Some(start), Some(duration)) => start.checked_add(&duration),
            _ => None,
        }
    }

    /// How long the log lasted.
    pub fn duration(&self) -> (r: Option<Duration>)
        ensures
            r == self@.duration,
    {
        self.maybe_duration
    }

    /// The comment.
    pub fn comment(&self) -> (r: Option<&str>)
        ensures
            match r {
                Some(t) => self@.comment == Some(t@),
                None => self@.comment is None,
            },
    {
        optional_str(&self.maybe_comment)
    }

    /// The tags.
    pub fn tags(&self) -> (r: &Vec<String>)
        ensures
            lines(r@) == self@.tags,
    {
        &self.tags
    }

    /// The details of the task, where they were attached.
    pub fn task(&self) -> (r: Option<&Task>)
        ensures
            match r {
                Some(t) => self@.task == Some(t@),
                None => self@.task is None,
            },
    {
        match &self.maybe_task {
            Some(t) => Some(t),
            None => None,
        }
    }
}

/// The fields by which logs can be sorted.
#[derive(Debug, Clone, Copy, PartialEq, Eq, Structural)]
pub enum LogField {
    Id,
    ProjectId,
    TaskId,
    Start,
    Duration,
    Comment,
}

impl LogField {
    /// The field by which logs are sorted where none is named.
    pub fn default() -> (r: Self)
        ensures
            r == LogField::Id,
    {
        LogField::Id
    }
}

/// Tells how two optional lengths of time stand to each other.
pub fn optional_length_order(a: Option<Duration>, b: Option<Duration>) -> (r: Relation)
    ensures
        r == optional_length_relation(a, b),
{
    match (a, b) {
        (None, None) => Relation::Equal,
        (None, Some(_)) => Relation::Less,
        (Some(_), None) => Relation::Greater,
        (Some(x), Some(y)) => {
            if x.less_than(&y) {
                Relation::Less
            } else if y.less_than(&x) {
                Relation::Greater
            } else {
                Relation::Equal
            }
        },
    }
}

impl Comparator for LogField {
    type Type = Log;

    open spec fn relation(&self, a: &Log, b: &Log) -> Relation {
        match self {
            LogField::Id => optional_number_relation(a@.id, b@.id),
            LogField::ProjectId => optional_text_relation(a@.project_id, b@.project_id),
            LogField::TaskId => optional_number_relation(a@.task_id, b@.task_id),
            LogField::Start => optional_moment_relation(a@.start, b@.start),
            LogField::Duration => optional_length_relation(a@.duration, b@.duration),
            LogField::Comment => optional_text_relation(a@.comment, b@.comment),
        }
    }

    open spec fn named(s: Seq<char>) -> Result<Self, ErrorView> {
        if s == "id"@ {
            Ok(LogField::Id)
        } else if s == "project_id"@ || s == "project-id"@ || s == "project"@ {
            Ok(LogField::ProjectId)
        } else if s == "task_id"@ || s == "task-id"@ || s == "task"@ {
            Ok(LogField::TaskId)
        } else if s == "start"@ {
            Ok(LogField::Start)
        } else if s == "duration"@ {
            Ok(LogField::Duration)
        } else if s == "comment"@ {
            Ok(LogField::Comment)
        } else {
            Err(ErrorView::UnrecognizedLogField(s))
        }
    }

    open spec fn name(&self) -> Seq<char> {
        match self {
            LogField::Id => "id"@,
            LogField::ProjectId => "project-id"@,
            LogField::TaskId => "task-id"@,
            LogField::Start => "start"@,
            LogField::Duration => "duration"@,
            LogField::Comment => "comment"@,
        }
    }

    fn cmp(&self, a: &Log, b: &Log) -> (r: Relation) {
        match self {
            LogField::Id => optional_number_order(a.id(), b.id()),
            LogField::ProjectId => optional_text_order(a.project_id(), b.project_id()),
            LogField::TaskId => optional_number_order(a.task_id(), b.task_id()),
            LogField::Start => optional_moment_order(a.start(), b.start()),
            LogField::Duration => optional_length_order(a.duration(), b.duration()),
            LogField::Comment => optional_text_order(a.comment(), b.comment()),
        }
    }

    fn from_str(s: &str) -> (r: Result<Self, Error>) {
        let v = chars_of(s);
        if spells(&v, "id") {
            Ok(LogField::Id)
        } else if spells(&v, "project_id") || spells(&v, "project-id") || spells(&v, "project") {
            Ok(LogField::ProjectId)
        } else if spells(&v, "task_id") || spells(&v, "task-id") || spells(&v, "task") {
            Ok(LogField::TaskId)
        } else if spells(&v, "start") {
            Ok(LogField::Start)
        } else if spells(&v, "duration") {
            Ok(LogField::Duration)
        } else if spells(&v, "comment") {
            Ok(LogField::Comment)
        } else {
            Err(Error::UnrecognizedLogField(string_of(&v)))
        }
    }

    fn to_string(&self) -> (r: String) {
        match self {
            LogField::Id => owned("id"),
            LogField::ProjectId => owned("project-id"),
            LogField::TaskId => owned("task-id"),
            LogField::Start => owned("start"),
            LogField::Duration => owned("duration"),
            LogField::Comment => owned("comment"),
        }
    }

    proof fn lemma_ranking(&self, a: &Log, b: &Log, c: &Log) {
        lemma_optional_number_ranked(a@.id, b@.id, c@.id);
        lemma_optional_text_ranked(a@.project_id, b@.project_id, c@.project_id);
        lemma_optional_number_ranked(a@.task_id, b@.task_id, c@.task_id);
        lemma_optional_moment_ranked(a@.start, b@.start, c@.start);
        lemma_optional_length_ranked(a@.duration, b@.duration, c@.duration);
        lemma_optional_text_ranked(a@.comment, b@.comment, c@.comment);
    }
}

/// How logs are sorted where nothing is asked for: by project, then by task,
/// then by number, all ascending.
pub fn default_log_sort() -> (r: SortSpec<LogField>)
    ensures
        r.keys() == seq![
            (LogField::ProjectId, Order::Asc),
            (LogField::TaskId, Order::Asc),
            (LogField::Id, Order::Asc),
        ],
{
    SortSpec::new(LogField::ProjectId, Order::Asc).and_then(LogField::TaskId, Order::Asc).and_then(
        LogField::Id,
        Order::Asc,
    )
}

/// The filters on logs.
#[derive(Debug, Clone, PartialEq)]
pub enum LogFilter {
    /// Every log.
    All,
    /// The logs of this project.
    Project(String),
    /// The logs that belong to a task.
    HasTask,
    /// The logs of the tasks with these numbers.
    Task(Vec<u32>),
    /// The logs that have a start, and one that the filter wants.
    Start(TimestampFilter),
    /// The logs that have a duration, and one that the filter wants.
    Duration(DurationFilter),
    /// The logs that carry at least one of these tags.
    Tags(Vec<String>),
}

/// What a [`LogFilter`] holds. A duration filter is held as its
/// comparison and the whole seconds and nanoseconds that it compares with.
pub enum LogFilterView {
    All,
    Project(Seq<char>),
    HasTask,
    Task(Seq<u32>),
    Start(TimestampFilterView),
    Duration((Comparison, int, int)),
    Tags(Seq<Seq<char>>),
}

impl View for LogFilter {
    type V = LogFilterView;

    open spec fn view(&self) -> LogFilterView {
        match self {
            LogFilter::All => LogFilterView::All,
            LogFilter::Project(id) => LogFilterView::Project(id@),
            LogFilter::HasTask => LogFilterView::HasTask,
            LogFilter::Task(ids) => LogFilterView::Task(ids@),
            LogFilter::Start(f) => LogFilterView::Start(f@),
            LogFilter::Duration(f) => LogFilterView::Duration(
                (f.comparison(), f.bound().seconds(), f.bound().subsec()),
            ),
            LogFilter::Tags(tags) => LogFilterView::Tags(lines(tags@)),
        }
    }
}

/// What the filters of a specification hold, in order.
pub open spec fn log_filters(spec: FilterSpec<LogFilter>) -> Seq<LogFilterView> {
    spec.filters().map_values(|f: LogFilter| f@)
}

/// The filters with one more: in place of a lone filter for everything,
/// else behind the others.
pub open spec fn log_then(filters: Seq<LogFilterView>, filter: LogFilterView) -> Seq<LogFilterView> {
    if filters.len() == 1 && filters[0] is All {
        seq![filter]
    } else {
        filters.push(filter)
    }
}

/// The specification that asks for `filter` as well.
pub fn then_log(spec: FilterSpec<LogFilter>, filter: LogFilter) -> (r: FilterSpec<LogFilter>)
    ensures
        log_filters(r) == log_then(log_filters(spec), filter@),
        r.filters().len() >= 1,
{
    let ghost before = spec.filters();
    let r = spec.and_then(filter);
    proof {
        if before.len() == 1 {
            assert(before[0]@ is All <==> before[0] is All);
            assert(log_filters(spec)[0] == before[0]@);
        }
        assert(log_filters(r) =~= log_then(log_filters(spec), filter@));
    }
    r
}

impl LogFilter {
    /// The filter that is used where none is given: every log.
    pub fn default() -> (r: Self)
        ensures
            r is All,
    {
        LogFilter::All
    }
}

impl Filter for LogFilter {
    type Type = Log;

    open spec fn accepts(&self, log: &Log, now: Timestamp) -> bool {
        match self {
            LogFilter::All => true,
            LogFilter::Project(project_id) => log@.project_id == Some(project_id@),
            LogFilter::HasTask => log@.task_id is Some,
            LogFilter::Task(task_ids) => match log@.task_id {
                Some(id) => task_ids@.contains(id),
                None => false,
            },
            LogFilter::Start(f) => match log@.start {
                Some(start) => f.accepts(now, start),
                None => false,
            },
            LogFilter::Duration(f) => match log@.duration {
                Some(duration) => f.accepts(duration),
                None => false,
            },
            LogFilter::Tags(tags) => share_one(log@.tags, lines(tags@)),
        }
    }

    open spec fn usable_at(&self, now: Timestamp) -> bool {
        match self {
            LogFilter::Start(f) => f.usable_at(now),
            _ => true,
        }
    }

    open spec fn is_all(&self) -> bool {
        self is All
    }

    fn matches(&self, log: &Log, now: Timestamp) -> (r: bool) {
        match self {
            LogFilter::All => true,
            LogFilter::Project(project_id) => match log.project_id() {
                Some(id) => same_text(id, project_id.as_str()),
                None => false,
            },
            LogFilter::HasTask => log.task_id().is_some(),
            LogFilter::Task(task_ids) => match log.task_id() {
                Some(id) => holds_number(task_ids, id),
                None => false,
            },
            LogFilter::Start(f) => match log.start() {
                Some(start) => f.matches(now, start),
                None => false,
            },
            LogFilter::Duration(f) => match log.duration() {
                Some(duration) => f.matches(duration),
                None => false,
            },
            LogFilter::Tags(tags) => tags_intersect(log.tags(), tags),
        }
    }

    fn is_default(&self) -> (r: bool) {
        match self {
            LogFilter::All => true,
            _ => false,
        }
    }

    proof fn lemma_all_accepts(&self, log: &Log, now: Timestamp) {
    }
}

} // verus!
