//! What the user asks for, and what follows from it.
//!
//! Each request is a plain record. The functions here turn requests into
//! objects, filters and orders, and say what an operation does with what the
//! store holds; touching the disk is the caller's part.

use vstd::prelude::*;
use crate::config::{Config, State};
use crate::duration::Duration;
use crate::error::{Error, ErrorView};
use crate::filter::{
    duration_filter_parsed, each_trimmed, timestamp_filter_parsed, DurationFilter, FilterSpec,
    TimestampFilter,
};
use crate::numbers::{parse_unsigned, parsed_unsigned, NumberError};
use crate::project::{
    copy_optional, optional_text, project_filters, project_then, then_project, Project,
    ProjectField, ProjectFilter, ProjectFilterView, ProjectView,
};
use crate::sort::{is_ordered_by, sort_spec_parsed, Order, SortSpec};
use crate::storage::{
    ids_have_room, log_to_save, path_join, task_to_save, Store,
};
use crate::strings::slug_of;
use crate::tags::{copy_lines, tags_of};
use crate::task::{
    task_filters, task_then, then_task, Task, TaskField, TaskFilter, TaskFilterView, TaskView,
};
use crate::text::{
    chars_of, drop_leading, lines, owned, split, split_on, string_of, texts, trim,
    trimmed,
};
use crate::timestamp::Timestamp;
use crate::worklog::{
    log_filters, log_result, log_then, stopped, then_log, with_duration_or_stop, Log, LogField,
    LogFilter, LogFilterView, LogView,
};

verus! {

/// Add a new project.
#[derive(Debug, Clone)]
pub struct AddProject {
    /// The name of the project.
    pub name: String,
    /// A description.
    pub maybe_description: Option<String>,
    /// A deadline.
    pub maybe_deadline: Option<Timestamp>,
    /// Tags, separated by commas.
    pub maybe_tags: Option<String>,
}

/// Remove a project and everything under it.
#[derive(Debug, Clone)]
pub struct RemoveProject {
    /// The identifier of the project.
    pub id: String,
}

/// Add a new task to a project.
#[derive(Debug, Clone)]
pub struct AddTask {
    /// The identifier of the project.
    pub project_id: String,
    /// What the task is about.
    pub description: String,
    /// The priority, 1 for the most urgent and 10 for the least.
    pub priority: u8,
    /// The state of the task.
    pub maybe_state: Option<String>,
    /// A deadline.
    pub maybe_deadline: Option<Timestamp>,
    /// Tags, separated by commas.
    pub maybe_tags: Option<String>,
}

/// Update one or more tasks of a project.
#[derive(Debug, Clone)]
pub struct UpdateTask {
    /// The identifier of the project.
    pub project_id: String,
    /// The numbers of the tasks, separated by commas.
    pub task_ids: String,
    /// A new description.
    pub maybe_description: Option<String>,
    /// A new priority.
    pub maybe_priority: Option<u8>,
    /// A new state.
    pub maybe_state: Option<String>,
    /// A new deadline.
    pub maybe_deadline: Option<Timestamp>,
    /// New tags, separated by commas.
    pub maybe_tags: Option<String>,
}

/// Add a finished log to a project or task.
#[derive(Debug, Clone)]
pub struct AddLog {
    /// The identifier of the project.
    pub project_id: String,
    /// The number of the task.
    pub maybe_task_id: Option<u32>,
    /// When the work started.
    pub maybe_start: Option<Timestamp>,
    /// When the work stopped; not together with a duration.
    pub maybe_stop: Option<Timestamp>,
    /// How long the work took; not together with a stop time.
    pub maybe_duration: Option<Duration>,
    /// What was done.
    pub maybe_comment: Option<String>,
    /// Tags, separated by commas.
    pub maybe_tags: Option<String>,
}

/// Start tracking a new log.
#[derive(Debug, Clone)]
pub struct StartLog {
    /// The identifier of the project.
    pub project_id: String,
    /// The number of the task.
    pub maybe_task_id: Option<u32>,
    /// When the work starts.
    pub start: Timestamp,
    /// What is being done.
    pub maybe_comment: Option<String>,
    /// Tags, separated by commas.
    pub maybe_tags: Option<String>,
}

/// Stop a log: the one being tracked, or the one named by project and number.
#[derive(Debug, Clone)]
pub struct StopLog {
    /// The identifier of the project of the log.
    pub maybe_project_id: Option<String>,
    /// The number of the task of the log.
    pub maybe_task_id: Option<u32>,
    /// The number of the log.
    pub maybe_id: Option<u32>,
    /// When the work stopped.
    pub maybe_stop_time: Option<Timestamp>,
    /// How long the work took.
    pub maybe_duration: Option<Duration>,
    /// What was done.
    pub maybe_comment: Option<String>,
    /// Tags, separated by commas.
    pub maybe_tags: Option<String>,
}

/// Cancel a log: the one being tracked, or the one named by project and
/// number.
#[derive(Debug, Clone)]
pub struct CancelLog {
    /// The identifier of the project of the log.
    pub maybe_project_id: Option<String>,
    /// The number of the task of the log.
    pub maybe_task_id: Option<u32>,
    /// The number of the log.
    pub maybe_id: Option<u32>,
}

/// List projects.
#[derive(Debug, Clone)]
pub struct ListProjects {
    /// Whether to show every detail.
    pub detailed: bool,
    /// A filter on the deadline.
    pub maybe_deadline_filter: Option<String>,
    /// Tags of which a project has to carry one, separated by commas.
    pub maybe_tags_filter: Option<String>,
    /// The fields to sort by.
    pub sort: String,
}

/// List tasks.
#[derive(Debug, Clone)]
pub struct ListTasks {
    /// Identifiers of projects, separated by commas.
    pub maybe_project_ids: Option<String>,
    /// A filter on the deadline of the project.
    pub maybe_project_deadline_filter: Option<String>,
    /// Tags of which the project has to carry one, separated by commas.
    pub maybe_project_tags_filter: Option<String>,
    /// Priorities, separated by commas.
    pub maybe_priority_filter: Option<String>,
    /// States, separated by commas; `!` before a single state leaves that
    /// state out; `any` or `all` lets every state through.
    pub state_filter: String,
    /// A filter on the deadline.
    pub maybe_deadline_filter: Option<String>,
    /// Tags of which a task has to carry one, separated by commas.
    pub maybe_tags_filter: Option<String>,
    /// The fields to sort by.
    pub sort: String,
}

/// List logs.
#[derive(Debug, Clone)]
pub struct ListLogs {
    /// Identifiers of projects, separated by commas.
    pub maybe_project_ids: Option<String>,
    /// Numbers of tasks, separated by commas.
    pub maybe_task_ids_filter: Option<String>,
    /// Whether to show every detail.
    pub detailed: bool,
    /// A filter on the deadline of the project.
    pub maybe_project_deadline_filter: Option<String>,
    /// Tags of which the project has to carry one, separated by commas.
    pub maybe_project_tags_filter: Option<String>,
    /// Priorities of the task, separated by commas.
    pub maybe_task_priority_filter: Option<String>,
    /// States of the task, separated by commas.
    pub maybe_task_state_filter: Option<String>,
    /// A filter on the deadline of the task.
    pub maybe_task_deadline_filter: Option<String>,
    /// Tags of which the task has to carry one, separated by commas.
    pub maybe_task_tags_filter: Option<String>,
    /// A filter on the start.
    pub start_filter: String,
    /// A filter on the duration.
    pub maybe_duration_filter: Option<String>,
    /// Tags of which a log has to carry one, separated by commas.
    pub maybe_tags_filter: Option<String>,
    /// The fields to sort by.
    pub sort: String,
}

/// Show the states that tasks can be in.
#[derive(Debug, Clone)]
pub struct TaskStates {
    /// The identifier of a project; the default states where none is given.
    pub maybe_project_id: Option<String>,
}

/// Set the storage root up as a repository with a remote.
#[derive(Debug, Clone)]
pub struct RemoteInit {
    /// The branch to start on.
    pub branch: String,
    /// The remote repository.
    pub origin: String,
}

/// The log being tracked and for how long it has been.
#[derive(Debug, Clone)]
pub struct LogStatus {
    /// The log.
    pub log: Log,
    /// The time since it started.
    pub active_for: Duration,
}

impl StopLog {
    /// The request to stop the log being tracked, now, and to change nothing
    /// else about it.
    pub fn default() -> (r: Self)
        ensures
            r.maybe_project_id is None,
            r.maybe_task_id is None,
            r.maybe_id is None,
            r.maybe_stop_time is None,
            r.maybe_duration is None,
            r.maybe_comment is None,
            r.maybe_tags is None,
    {
        StopLog {
            maybe_project_id: None,
            maybe_task_id: None,
            maybe_id: None,
            maybe_stop_time: None,
            maybe_duration: None,
            maybe_comment: None,
            maybe_tags: None,
        }
    }
}

impl CancelLog {
    /// The request to cancel the log being tracked.
    pub fn default() -> (r: Self)
        ensures
            r.maybe_project_id is None,
            r.maybe_task_id is None,
            r.maybe_id is None,
    {
        CancelLog { maybe_project_id: None, maybe_task_id: None, maybe_id: None }
    }
}

/// The items of a list written with commas: the pieces between the commas,
/// each without the white space around it. No text at all gives no items.
pub open spec fn comma_separated(maybe: Option<Seq<char>>) -> Seq<Seq<char>> {
    match maybe {
        Some(s) => each_trimmed(split_on(s, ',')),
        None => Seq::empty(),
    }
}

/// Cuts a list written with commas into its items.
pub fn parse_comma_separated(maybe_str: Option<String>) -> (r: Vec<String>)
    ensures
        lines(r@) == comma_separated(optional_text(maybe_str)),
{
    let mut out: Vec<String> = Vec::new();
    match maybe_str {
        None => {
            assert(lines(out@) == Seq::<Seq<char>>::empty());
        },
        Some(s) => {
            let v = chars_of(s.as_str());
            let pieces = split(&v, ',');
            let ghost all = split_on(s@, ',');
            assert(texts(pieces@).len() == pieces@.len());
            let mut i: usize = 0;
            while i < pieces.len()
                invariant
                    i <= pieces.len(),
                    out.len() == i,
                    texts(pieces@) == all,
                    forall|k: int| 0 <= k < i ==> (#[trigger] out@[k])@ == trimmed(all[k]),
                decreases pieces.len() - i,
            {
                assert(texts(pieces@)[i as int] == pieces@[i as int]@);
                out.push(string_of(&trim(&pieces[i])));
                i = i + 1;
            }
            assert(lines(out@) == each_trimmed(all));
        },
    }
    out
}

/// The numbers that a list of texts stands for, none larger than `max`, or
/// the fault of the first text that is no such number.
pub open spec fn numbers_parsed(items: Seq<Seq<char>>, max: nat) -> Result<Seq<nat>, NumberError>
    decreases items.len(),
{
    if items.len() == 0 {
        Ok(Seq::empty())
    } else {
        match numbers_parsed(items.drop_last(), max) {
            Err(e) => Err(e),
            Ok(numbers) => match parsed_unsigned(items.last(), max) {
                Err(e) => Err(e),
                Ok(n) => Ok(numbers.push(n)),
            },
        }
    }
}

/// A fault among the first texts is the fault of the whole list.
pub proof fn lemma_numbers_fault(items: Seq<Seq<char>>, max: nat, upto: int)
    requires
        0 <= upto <= items.len(),
        numbers_parsed(items.take(upto), max) is Err,
    ensures
        numbers_parsed(items, max) == numbers_parsed(items.take(upto), max),
    decreases items.len() - upto,
{
    if upto < items.len() {
        assert(items.take(upto + 1).drop_last() == items.take(upto));
        lemma_numbers_fault(items, max, upto + 1);
    } else {
        assert(items.take(upto) == items);
    }
}

/// Reads each text of a list as a number no larger than `max`.
pub fn parse_numbers(items: &Vec<String>, max: u64) -> (r: Result<Vec<u64>, NumberError>)
    ensures
        match r {
            Ok(v) => numbers_parsed(lines(items@), max as nat) == Ok::<Seq<nat>, NumberError>(
                v@.map_values(|n: u64| n as nat),
            ) && forall|k: int| 0 <= k < v.len() ==> v@[k] <= max,
            Err(e) => numbers_parsed(lines(items@), max as nat) == Err::<Seq<nat>, NumberError>(e),
        },
{
    let ghost all = lines(items@);
    let mut out: Vec<u64> = Vec::new();
    let mut i: usize = 0;
    assert(all.take(0) == Seq::<Seq<char>>::empty());
    assert(out@.map_values(|n: u64| n as nat) == Seq::<nat>::empty());
    while i < items.len()
        invariant
            i <= items.len(),
            all == lines(items@),
            numbers_parsed(all.take(i as int), max as nat) == Ok::<Seq<nat>, NumberError>(
                out@.map_values(|n: u64| n as nat),
            ),
            forall|k: int| 0 <= k < out.len() ==> out@[k] <= max,
        decreases items.len() - i,
    {
        let ghost next = all.take(i + 1);
        assert(next.drop_last() == all.take(i as int));
        assert(next.last() == items@[i as int]@);
        let v = chars_of(items[i].as_str());
        match parse_unsigned(&v, max) {
            Err(e) => {
                proof {
                    lemma_numbers_fault(all, max as nat, i + 1);
                }
                return Err(e);
            },
            Ok(n) => {
                let ghost before = out@;
                out.push(n);
                assert(out@.map_values(|n: u64| n as nat) == before.map_values(
                    |n: u64| n as nat,
                ).push(n as nat));
            },
        }
        i = i + 1;
    }
    assert(all.take(items.len() as int) == all);
    Ok(out)
}

/// The numbers as task or log numbers.
fn as_ids(numbers: &Vec<u64>) -> (r: Vec<u32>)
    requires
        forall|k: int| 0 <= k < numbers.len() ==> numbers@[k] <= u32::MAX,
    ensures
        r@.map_values(|n: u32| n as nat) == numbers@.map_values(|n: u64| n as nat),
{
    let mut out: Vec<u32> = Vec::new();
    let mut i: usize = 0;
    while i < numbers.len()
        invariant
            i <= numbers.len(),
            out.len() == i,
            forall|k: int| 0 <= k < numbers.len() ==> numbers@[k] <= u32::MAX,
            forall|k: int| 0 <= k < i ==> out@[k] == numbers@[k],
        decreases numbers.len() - i,
    {
        out.push(numbers[i] as u32);
        i = i + 1;
    }
    assert(out@.map_values(|n: u32| n as nat) =~= numbers@.map_values(|n: u64| n as nat));
    out
}

/// The numbers as priorities.
fn as_priorities(numbers: &Vec<u64>) -> (r: Vec<u8>)
    requires
        forall|k: int| 0 <= k < numbers.len() ==> numbers@[k] <= u8::MAX,
    ensures
        r@.map_values(|n: u8| n as nat) == numbers@.map_values(|n: u64| n as nat),
{
    let mut out: Vec<u8> = Vec::new();
    let mut i: usize = 0;
    while i < numbers.len()
        invariant
            i <= numbers.len(),
            out.len() == i,
            forall|k: int| 0 <= k < numbers.len() ==> numbers@[k] <= u8::MAX,
            forall|k: int| 0 <= k < i ==> out@[k] == numbers@[k],
        decreases numbers.len() - i,
    {
        out.push(numbers[i] as u8);
        i = i + 1;
    }
    assert(out@.map_values(|n: u8| n as nat) =~= numbers@.map_values(|n: u64| n as nat));
    out
}

/// The filters on projects that follow from what was asked for: the
/// identifiers, then the deadline, then the tags, each only where it was
/// given.
pub open spec fn project_filter_built(
    ids: Option<Seq<char>>,
    deadline: Option<Seq<char>>,
    tags: Option<Seq<char>>,
    now: Timestamp,
) -> Result<Seq<ProjectFilterView>, ErrorView> {
    let first = seq![ProjectFilterView::All];
    let with_ids = match ids {
        Some(s) => project_then(first, ProjectFilterView::Ids(comma_separated(Some(s)))),
        None => first,
    };
    match deadline {
        Some(d) => match timestamp_filter_parsed(d, now) {
            Err(e) => Err(e),
            Ok(f) => Ok(
                project_with_tags(project_then(with_ids, ProjectFilterView::Deadline(f)), tags),
            ),
        },
        None => Ok(project_with_tags(with_ids, tags)),
    }
}

/// The filters with one on tags, where tags were given.
pub open spec fn project_with_tags(filters: Seq<ProjectFilterView>, tags: Option<Seq<char>>) -> Seq<
    ProjectFilterView,
> {
    match tags {
        Some(t) => project_then(filters, ProjectFilterView::Tags(comma_separated(Some(t)))),
        None => filters,
    }
}

/// Builds the filter on projects from what was asked for.
pub fn build_project_filter(
    maybe_project_ids: Option<String>,
    maybe_deadline: Option<String>,
    maybe_tags: Option<String>,
    now: Timestamp,
) -> (r: Result<FilterSpec<ProjectFilter>, Error>)
    requires
        now.has_room(1, 2),
    ensures
        match r {
            Ok(spec) => project_filter_built(
                optional_text(maybe_project_ids),
                optional_text(maybe_deadline),
                optional_text(maybe_tags),
                now,
            ) == Ok::<Seq<ProjectFilterView>, ErrorView>(project_filters(spec)),
            Err(e) => project_filter_built(
                optional_text(maybe_project_ids),
                optional_text(maybe_deadline),
                optional_text(maybe_tags),
                now,
            ) == Err::<Seq<ProjectFilterView>, ErrorView>(e@),
        },
{
    let mut filter = FilterSpec::new(ProjectFilter::All);
    assert(project_filters(filter) == seq![ProjectFilterView::All]);
    match maybe_project_ids {
        Some(ids) => {
            filter = then_project(filter, ProjectFilter::Ids(parse_comma_separated(Some(ids))));
        },
        None => {},
    }
    match maybe_deadline {
        Some(deadline) => {
            match TimestampFilter::parse(deadline.as_str(), now) {
                Ok(f) => {
                    filter = then_project(filter, ProjectFilter::Deadline(f));
                },
                Err(e) => {
                    return Err(e);
                },
            }
        },
        None => {},
    }
    match maybe_tags {
        Some(tags) => {
            filter = then_project(filter, ProjectFilter::Tags(parse_comma_separated(Some(tags))));
        },
        None => {},
    }
    Ok(filter)
}

/// The filters with one on states, where states were given: a single state
/// behind `!` leaves that state out; `any` or `all` in the first place lets
/// every state through; anything else asks for one of the states given.
pub open spec fn task_with_states(filters: Seq<TaskFilterView>, states: Option<Seq<char>>) -> Seq<
    TaskFilterView,
> {
    match states {
        None => filters,
        Some(s) => {
            let list = comma_separated(Some(s));
            if list.len() == 1 && list[0].len() > 0 && list[0][0] == '!' {
                task_then(
                    filters,
                    TaskFilterView::StateNot(drop_leading(list[0], |c: char| c == '!')),
                )
            } else if list.len() > 0 && list[0] != "any"@ && list[0] != "all"@ {
                task_then(filters, TaskFilterView::State(list))
            } else {
                filters
            }
        },
    }
}

/// The filters with one on tags, where tags were given.
pub open spec fn task_with_tags(filters: Seq<TaskFilterView>, tags: Option<Seq<char>>) -> Seq<
    TaskFilterView,
> {
    match tags {
        Some(t) => task_then(filters, TaskFilterView::Tags(comma_separated(Some(t)))),
        None => filters,
    }
}

/// The filters on tasks that follow from what was asked for: the
/// priorities, then the states, then the deadline, then the tags, each only
/// where it was given.
pub open spec fn task_filter_built(
    priorities: Option<Seq<char>>,
    states: Option<Seq<char>>,
    deadline: Option<Seq<char>>,
    tags: Option<Seq<char>>,
    now: Timestamp,
) -> Result<Seq<TaskFilterView>, ErrorView> {
    let first = seq![TaskFilterView::All];
    let with_priorities = match priorities {
        None => Ok(first),
        Some(p) => match numbers_parsed(comma_separated(Some(p)), u8::MAX as nat) {
            Err(e) => Err(ErrorView::CannotParseTaskPriority(p, e)),
            Ok(numbers) => Ok(
                task_then(first, TaskFilterView::Priority(numbers.map_values(|n: nat| n as u8))),
            ),
        },
    };
    match with_priorities {
        Err(e) => Err(e),
        Ok(filters) => {
            let with_states = task_with_states(filters, states);
            match deadline {
                Some(d) => match timestamp_filter_parsed(d, now) {
                    Err(e) => Err(e),
                    Ok(f) => Ok(
                        task_with_tags(task_then(with_states, TaskFilterView::Deadline(f)), tags),
                    ),
                },
                None => Ok(task_with_tags(with_states, tags)),
            }
        },
    }
}

/// Builds the filter on tasks from what was asked for.
pub fn build_task_filter(
    maybe_priorities: Option<String>,
    maybe_states: Option<String>,
    maybe_deadline: Option<String>,
    maybe_tags: Option<String>,
    now: Timestamp,
) -> (r: Result<FilterSpec<TaskFilter>, Error>)
    requires
        now.has_room(1, 2),
    ensures
        match r {
            Ok(spec) => task_filter_built(
                optional_text(maybe_priorities),
                optional_text(maybe_states),
                optional_text(maybe_deadline),
                optional_text(maybe_tags),
                now,
            ) == Ok::<Seq<TaskFilterView>, ErrorView>(task_filters(spec)),
            Err(e) => task_filter_built(
                optional_text(maybe_priorities),
                optional_text(maybe_states),
                optional_text(maybe_deadline),
                optional_text(maybe_tags),
                now,
            ) == Err::<Seq<TaskFilterView>, ErrorView>(e@),
        },
{
    let mut filter = FilterSpec::new(TaskFilter::All);
    assert(task_filters(filter) == seq![TaskFilterView::All]);
    match maybe_priorities {
        Some(priorities) => {
            let items = parse_comma_separated(Some(priorities.clone()));
            match parse_numbers(&items, 255) {
                Err(e) => {
                    return Err(Error::CannotParseTaskPriority(priorities, e));
                },
                Ok(numbers) => {
                    let list = as_priorities(&numbers);
                    assert(list@ == numbers@.map_values(|n: u64| n as nat).map_values(
                        |n: nat| n as u8,
                    )) by {
                        let a = list@.map_values(|n: u8| n as nat);
                        let b = numbers@.map_values(|n: u64| n as nat);
                        assert forall|k: int| 0 <= k < list@.len() implies list@[k] == b.map_values(
                            |n: nat| n as u8,
                        )[k] by {
                            assert(a[k] == b[k]);
                        }
                        assert(list@.len() == a.len());
                    }
                    filter = then_task(filter, TaskFilter::Priority(list));
                },
            }
        },
        None => {},
    }
    match maybe_states {
        Some(states) => {
            let states = parse_comma_separated(Some(states));
            assert(lines(states@).len() == states@.len());
            if states.len() >= 1 {
                assert(lines(states@)[0] == states@[0]@);
            }
            let first = if states.len() >= 1 {
                chars_of(states[0].as_str())
            } else {
                Vec::new()
            };
            if states.len() == 1 && first.len() > 0 && first[0] == '!' {
                let state = string_of(&crate::text::strip_leading_char(&first, '!'));
                filter = then_task(filter, TaskFilter::StateNot(state));
            } else if states.len() > 0 && !crate::text::spells(&first, "any")
                && !crate::text::spells(&first, "all") {
                filter = then_task(filter, TaskFilter::State(states));
            }
        },
        None => {},
    }
    match maybe_deadline {
        Some(deadline) => {
            match TimestampFilter::parse(deadline.as_str(), now) {
                Ok(f) => {
                    filter = then_task(filter, TaskFilter::Deadline(f));
                },
                Err(e) => {
                    return Err(e);
                },
            }
        },
        None => {},
    }
    match maybe_tags {
        Some(tags) => {
            filter = then_task(filter, TaskFilter::Tags(parse_comma_separated(Some(tags))));
        },
        None => {},
    }
    Ok(filter)
}

/// The filters with one on tags, where tags were given.
pub open spec fn log_with_tags(filters: Seq<LogFilterView>, tags: Option<Seq<char>>) -> Seq<
    LogFilterView,
> {
    match tags {
        Some(t) => log_then(filters, LogFilterView::Tags(comma_separated(Some(t)))),
        None => filters,
    }
}

/// The rest of the filters on logs: the duration, then the tags.
pub open spec fn log_with_duration(
    filters: Seq<LogFilterView>,
    duration: Option<Seq<char>>,
    tags: Option<Seq<char>>,
) -> Result<Seq<LogFilterView>, ErrorView> {
    match duration {
        Some(d) => match duration_filter_parsed(d) {
            Err(e) => Err(e),
            Ok(f) => Ok(
                log_with_tags(log_then(filters, LogFilterView::Duration((f.0, f.1, 0int))), tags),
            ),
        },
        None => Ok(log_with_tags(filters, tags)),
    }
}

/// The filters on logs that follow from what was asked for: the task
/// numbers, or, where none were given but tasks are being filtered, that the
/// log belongs to a task; then the start, the duration and the tags, each
/// only where it was given.
pub open spec fn log_filter_built(
    tasks_filtered: bool,
    task_ids: Option<Seq<char>>,
    start: Option<Seq<char>>,
    duration: Option<Seq<char>>,
    tags: Option<Seq<char>>,
    now: Timestamp,
) -> Result<Seq<LogFilterView>, ErrorView> {
    let first = seq![LogFilterView::All];
    let with_tasks = match task_ids {
        Some(t) => match numbers_parsed(comma_separated(Some(t)), u32::MAX as nat) {
            Err(e) => Err(ErrorView::InvalidTaskIds(t, e)),
            Ok(numbers) => Ok(
                log_then(first, LogFilterView::Task(numbers.map_values(|n: nat| n as u32))),
            ),
        },
        None => if tasks_filtered {
            Ok(log_then(first, LogFilterView::HasTask))
        } else {
            Ok(first)
        },
    };
    match with_tasks {
        Err(e) => Err(e),
        Ok(filters) => match start {
            Some(s) => match timestamp_filter_parsed(s, now) {
                Err(e) => Err(e),
                Ok(f) => log_with_duration(
                    log_then(filters, LogFilterView::Start(f)),
                    duration,
                    tags,
                ),
            },
            None => log_with_duration(filters, duration, tags),
        },
    }
}

/// The task numbers that a list written with commas stands for.
pub fn parse_task_ids(list: &String) -> (r: Result<Vec<u32>, Error>)
    ensures
        match r {
            Ok(ids) => numbers_parsed(comma_separated(Some(list@)), u32::MAX as nat) matches Ok(
                numbers,
            ) && ids@ == numbers.map_values(|n: nat| n as u32),
            Err(e) => numbers_parsed(comma_separated(Some(list@)), u32::MAX as nat) matches Err(
                fault,
            ) && e@ == ErrorView::InvalidTaskIds(list@, fault),
        },
{
    let items = parse_comma_separated(Some(list.clone()));
    match parse_numbers(&items, 0xffff_ffff) {
        Err(e) => Err(Error::InvalidTaskIds(list.clone(), e)),
        Ok(numbers) => {
            let ids = as_ids(&numbers);
            assert(ids@ == numbers@.map_values(|n: u64| n as nat).map_values(|n: nat| n as u32)) by {
                let a = ids@.map_values(|n: u32| n as nat);
                let b = numbers@.map_values(|n: u64| n as nat);
                assert forall|k: int| 0 <= k < ids@.len() implies ids@[k] == b.map_values(
                    |n: nat| n as u32,
                )[k] by {
                    assert(a[k] == b[k]);
                }
                assert(ids@.len() == a.len());
            }
            Ok(ids)
        },
    }
}

/// Builds the filter on logs from what was asked for. A filter on tasks
/// that is not a passthrough counts as tasks being filtered.
pub fn build_log_filter(
    task_filter: &FilterSpec<TaskFilter>,
    maybe_task_ids: Option<String>,
    maybe_start: Option<String>,
    maybe_duration: Option<String>,
    maybe_tags: Option<String>,
    now: Timestamp,
) -> (r: Result<FilterSpec<LogFilter>, Error>)
    requires
        now.has_room(1, 2),
    ensures
        match r {
            Ok(spec) => log_filter_built(
                !task_filter.passthrough(),
                optional_text(maybe_task_ids),
                optional_text(maybe_start),
                optional_text(maybe_duration),
                optional_text(maybe_tags),
                now,
            ) == Ok::<Seq<LogFilterView>, ErrorView>(log_filters(spec)),
            Err(e) => log_filter_built(
                !task_filter.passthrough(),
                optional_text(maybe_task_ids),
                optional_text(maybe_start),
                optional_text(maybe_duration),
                optional_text(maybe_tags),
                now,
            ) == Err::<Seq<LogFilterView>, ErrorView>(e@),
        },
{
    let mut filter = FilterSpec::new(LogFilter::All);
    assert(log_filters(filter) == seq![LogFilterView::All]);
    match maybe_task_ids {
        Some(task_ids) => {
            match parse_task_ids(&task_ids) {
                Ok(ids) => {
                    filter = then_log(filter, LogFilter::Task(ids));
                },
                Err(e) => {
                    return Err(e);
                },
            }
        },
        None => {
            if !task_filter.is_passthrough() {
                filter = then_log(filter, LogFilter::HasTask);
            }
        },
    }
    match maybe_start {
        Some(start) => {
            match TimestampFilter::parse(start.as_str(), now) {
                Ok(f) => {
                    filter = then_log(filter, LogFilter::Start(f));
                },
                Err(e) => {
                    return Err(e);
                },
            }
        },
        None => {},
    }
    match maybe_duration {
        Some(duration) => {
            match DurationFilter::from_str(duration.as_str()) {
                Ok(f) => {
                    filter = then_log(filter, LogFilter::Duration(f));
                },
                Err(e) => {
                    return Err(e);
                },
            }
        },
        None => {},
    }
    match maybe_tags {
        Some(tags) => {
            filter = then_log(filter, LogFilter::Tags(parse_comma_separated(Some(tags))));
        },
        None => {},
    }
    Ok(filter)
}

/// The tags that a list written with commas gives.
pub open spec fn tags_written(maybe: Option<Seq<char>>) -> Result<Seq<Seq<char>>, ErrorView> {
    tags_of(comma_separated(maybe))
}

/// The view of a result.
pub open spec fn project_outcome(r: Result<Project, Error>) -> Result<ProjectView, ErrorView> {
    match r {
        Ok(p) => Ok(p@),
        Err(e) => Err(e@),
    }
}

/// The view of a result.
pub open spec fn task_outcome(r: Result<Task, Error>) -> Result<TaskView, ErrorView> {
    match r {
        Ok(t) => Ok(t@),
        Err(e) => Err(e@),
    }
}

/// The project that a request to add one describes.
pub open spec fn project_wanted(cmd: AddProject) -> Result<ProjectView, ErrorView> {
    match tags_written(optional_text(cmd.maybe_tags)) {
        Err(e) => Err(e),
        Ok(tags) => Ok(
            ProjectView {
                id: slug_of(cmd.name@),
                name: cmd.name@,
                description: optional_text(cmd.maybe_description),
                deadline: cmd.maybe_deadline,
                tags,
                task_state_config: None,
            },
        ),
    }
}

/// The task that a request to add one describes: the priority is checked
/// first, then the tags.
pub open spec fn task_wanted(cmd: AddTask) -> Result<TaskView, ErrorView> {
    if !(crate::task::MIN_TASK_PRIORITY <= cmd.priority <= crate::task::MAX_TASK_PRIORITY) {
        Err(
            ErrorView::InvalidTaskPriority(
                cmd.priority,
                crate::task::MIN_TASK_PRIORITY,
                crate::task::MAX_TASK_PRIORITY,
            ),
        )
    } else {
        match tags_written(optional_text(cmd.maybe_tags)) {
            Err(e) => Err(e),
            Ok(tags) => Ok(
                TaskView {
                    project_id: Some(cmd.project_id@),
                    id: None,
                    priority: Some(cmd.priority),
                    description: cmd.description@,
                    state: optional_text(cmd.maybe_state),
                    deadline: cmd.maybe_deadline,
                    tags,
                },
            ),
        }
    }
}

/// The task that an update makes of `task`: each part that the update gives
/// takes the place of the task's own. The priority is checked first, then the
/// tags.
pub open spec fn task_updated(cmd: UpdateTask, task: TaskView) -> Result<TaskView, ErrorView> {
    let described = TaskView {
        description: match cmd.maybe_description {
            Some(d) => d@,
            None => task.description,
        },
        ..task
    };
    if cmd.maybe_priority matches Some(p) && !(crate::task::MIN_TASK_PRIORITY <= p
        <= crate::task::MAX_TASK_PRIORITY) {
        Err(
            ErrorView::InvalidTaskPriority(
                cmd.maybe_priority.unwrap(),
                crate::task::MIN_TASK_PRIORITY,
                crate::task::MAX_TASK_PRIORITY,
            ),
        )
    } else {
        let changed = TaskView {
            priority: match cmd.maybe_priority {
                Some(p) => Some(p),
                None => task.priority,
            },
            state: match cmd.maybe_state {
                Some(s) => Some(s@),
                None => task.state,
            },
            deadline: match cmd.maybe_deadline {
                Some(d) => Some(d),
                None => task.deadline,
            },
            ..described
        };
        match cmd.maybe_tags {
            None => Ok(changed),
            Some(t) => match tags_written(Some(t@)) {
                Err(e) => Err(e),
                Ok(tags) => Ok(TaskView { tags, ..changed }),
            },
        }
    }
}

impl AddProject {
    /// The project that the request describes.
    pub fn to_project(&self) -> (r: Result<Project, Error>)
        ensures
            project_outcome(r) == project_wanted(*self),
    {
        Project::new(self.name.as_str()).with_maybe_description(
            copy_optional(&self.maybe_description),
        ).with_maybe_deadline(self.maybe_deadline).with_tags(
            parse_comma_separated(copy_optional(&self.maybe_tags)),
        )
    }
}

impl AddTask {
    /// The task that the request describes.
    pub fn to_task(&self) -> (r: Result<Task, Error>)
        ensures
            task_outcome(r) == task_wanted(*self),
    {
        let task = match Task::new(self.project_id.as_str(), self.description.as_str()).with_priority(
            self.priority,
        ) {
            Ok(t) => t,
            Err(e) => {
                return Err(e);
            },
        };
        task.with_maybe_state(copy_optional(&self.maybe_state)).with_maybe_deadline(
            self.maybe_deadline,
        ).with_tags(parse_comma_separated(copy_optional(&self.maybe_tags)))
    }
}

impl UpdateTask {
    /// The task with this update applied.
    pub fn apply(&self, task: &Task) -> (r: Result<Task, Error>)
        ensures
            task_outcome(r) == task_updated(*self, task@),
    {
        let mut task = task.clone();
        match &self.maybe_description {
            Some(description) => {
                task = task.with_description(description.as_str());
            },
            None => {},
        }
        match self.maybe_priority {
            Some(priority) => {
                match task.with_priority(priority) {
                    Ok(t) => {
                        task = t;
                    },
                    Err(e) => {
                        return Err(e);
                    },
                }
            },
            None => {},
        }
        match &self.maybe_state {
            Some(state) => {
                task = task.with_state(state.as_str());
            },
            None => {},
        }
        match self.maybe_deadline {
            Some(deadline) => {
                task = task.with_deadline(deadline);
            },
            None => {},
        }
        match &self.maybe_tags {
            Some(tags) => {
                match task.with_tags(parse_comma_separated(Some(tags.clone()))) {
                    Ok(t) => {
                        task = t;
                    },
                    Err(e) => {
                        return Err(e);
                    },
                }
            },
            None => {},
        }
        Ok(task)
    }
}

/// Whether `r` is the log that a request to add one describes: first the
/// duration or the stop time is taken in, then the tags.
pub open spec fn log_wanted(cmd: AddLog, r: Result<LogView, ErrorView>) -> bool {
    let base = LogView {
        project_id: Some(cmd.project_id@),
        task_id: cmd.maybe_task_id,
        id: None,
        start: cmd.maybe_start,
        duration: None,
        comment: None,
        tags: Seq::empty(),
        task: None,
    };
    exists|timed: Result<LogView, ErrorView>| #[trigger]
        with_duration_or_stop(base, cmd.maybe_duration, cmd.maybe_stop, timed) && match timed {
            Err(e) => r == Err::<LogView, ErrorView>(e),
            Ok(l) => match tags_written(optional_text(cmd.maybe_tags)) {
                Err(e) => r == Err::<LogView, ErrorView>(e),
                Ok(tags) => r == Ok::<LogView, ErrorView>(
                    LogView { comment: optional_text(cmd.maybe_comment), tags, ..l },
                ),
            },
        }
}

/// The log that a request to start one describes.
pub open spec fn log_started(cmd: StartLog) -> Result<LogView, ErrorView> {
    match tags_written(optional_text(cmd.maybe_tags)) {
        Err(e) => Err(e),
        Ok(tags) => Ok(
            LogView {
                project_id: Some(cmd.project_id@),
                task_id: cmd.maybe_task_id,
                id: None,
                start: Some(cmd.start),
                duration: None,
                comment: optional_text(cmd.maybe_comment),
                tags,
                task: None,
            },
        ),
    }
}

impl AddLog {
    /// The log that the request describes.
    pub fn to_log(&self) -> (r: Result<Log, Error>)
        ensures
            log_wanted(*self, log_result(r)),
    {
        let timed = Log::new(self.project_id.as_str()).with_maybe_task_id(
            self.maybe_task_id,
        ).with_maybe_start(self.maybe_start).with_maybe_duration_or_stop(
            self.maybe_duration,
            self.maybe_stop,
        );
        let ghost witness = log_result(timed);
        let r = match timed {
            Ok(log) => log.with_maybe_comment(copy_optional(&self.maybe_comment)).with_tags(
                parse_comma_separated(copy_optional(&self.maybe_tags)),
            ),
            Err(e) => Err(e),
        };
        proof {
            let base = LogView {
                project_id: Some(self.project_id@),
                task_id: self.maybe_task_id,
                id: None,
                start: self.maybe_start,
                duration: None,
                comment: None,
                tags: Seq::empty(),
                task: None,
            };
            assert(with_duration_or_stop(base, self.maybe_duration, self.maybe_stop, witness));
        }
        r
    }
}

impl StartLog {
    /// The log that the request describes: an open log.
    pub fn to_log(&self) -> (r: Result<Log, Error>)
        ensures
            log_result(r) == log_started(*self),
            r matches Ok(l) ==> l@.is_open(),
    {
        Log::new(self.project_id.as_str()).with_maybe_task_id(self.maybe_task_id).with_start(
            self.start,
        ).with_maybe_comment(copy_optional(&self.maybe_comment)).with_tags(
            parse_comma_separated(copy_optional(&self.maybe_tags)),
        )
    }
}

/// The log that a request speaks of: the one named by project and number,
/// or, where neither is given, the one being tracked. The flag says whether it
/// is the one being tracked. Project without number, or number without
/// project, is refused; so is asking for the tracked log when there is none.
pub open spec fn log_aimed_at(
    maybe_project_id: Option<Seq<char>>,
    maybe_task_id: Option<u32>,
    maybe_id: Option<u32>,
    active: Option<(Seq<char>, Option<u32>, u32)>,
) -> Result<(Seq<char>, Option<u32>, u32, bool), ErrorView> {
    match (maybe_project_id, maybe_id) {
        (Some(project_id), Some(id)) => Ok((project_id, maybe_task_id, id, false)),
        (None, None) => match active {
            Some(a) => Ok((a.0, a.1, a.2, true)),
            None => Err(ErrorView::NoActiveLog),
        },
        _ => Err(ErrorView::BothProjectAndLogIdRequired),
    }
}

/// Finds the log that a request speaks of.
pub fn log_target(
    maybe_project_id: &Option<String>,
    maybe_task_id: Option<u32>,
    maybe_id: Option<u32>,
    state: &State,
) -> (r: Result<(String, Option<u32>, u32, bool), Error>)
    ensures
        match r {
            Ok(t) => log_aimed_at(
                optional_text(*maybe_project_id),
                maybe_task_id,
                maybe_id,
                state.active(),
            ) == Ok::<(Seq<char>, Option<u32>, u32, bool), ErrorView>((t.0@, t.1, t.2, t.3)),
            Err(e) => log_aimed_at(
                optional_text(*maybe_project_id),
                maybe_task_id,
                maybe_id,
                state.active(),
            ) == Err::<(Seq<char>, Option<u32>, u32, bool), ErrorView>(e@),
        },
{
    match (maybe_project_id, maybe_id) {
        (Some(project_id), Some(id)) => Ok((project_id.clone(), maybe_task_id, id, false)),
        (None, None) => match state.active_log() {
            Some(a) => Ok((a.0, a.1, a.2, true)),
            None => Err(Error::NoActiveLog),
        },
        _ => Err(Error::BothProjectAndLogIdRequired),
    }
}

/// The log that a request to stop speaks of.
pub fn stop_log(params: &StopLog, state: &State) -> (r: Result<
    (String, Option<u32>, u32, bool),
    Error,
>)
    ensures
        match r {
            Ok(t) => log_aimed_at(
                optional_text(params.maybe_project_id),
                params.maybe_task_id,
                params.maybe_id,
                state.active(),
            ) == Ok::<(Seq<char>, Option<u32>, u32, bool), ErrorView>((t.0@, t.1, t.2, t.3)),
            Err(e) => log_aimed_at(
                optional_text(params.maybe_project_id),
                params.maybe_task_id,
                params.maybe_id,
                state.active(),
            ) == Err::<(Seq<char>, Option<u32>, u32, bool), ErrorView>(e@),
        },
{
    log_target(&params.maybe_project_id, params.maybe_task_id, params.maybe_id, state)
}

/// The log that a request to cancel speaks of.
pub fn cancel_log(params: &CancelLog, state: &State) -> (r: Result<
    (String, Option<u32>, u32, bool),
    Error,
>)
    ensures
        match r {
            Ok(t) => log_aimed_at(
                optional_text(params.maybe_project_id),
                params.maybe_task_id,
                params.maybe_id,
                state.active(),
            ) == Ok::<(Seq<char>, Option<u32>, u32, bool), ErrorView>((t.0@, t.1, t.2, t.3)),
            Err(e) => log_aimed_at(
                optional_text(params.maybe_project_id),
                params.maybe_task_id,
                params.maybe_id,
                state.active(),
            ) == Err::<(Seq<char>, Option<u32>, u32, bool), ErrorView>(e@),
        },
{
    log_target(&params.maybe_project_id, params.maybe_task_id, params.maybe_id, state)
}

/// Whether `r` is what stopping `log` as the request says gives: the log
/// with the duration given, or stopped at the time given, or, where neither
/// is given, stopped at `now`; then with the comment and the tags of the
/// request, where it has any.
pub open spec fn log_stopped(cmd: StopLog, log: LogView, now: Timestamp, r: Result<
    LogView,
    ErrorView,
>) -> bool {
    exists|timed: Result<LogView, ErrorView>| #[trigger]
        log_timed(cmd, log, now, timed) && match timed {
            Err(e) => r == Err::<LogView, ErrorView>(e),
            Ok(l) => {
                let commented = LogView {
                    comment: match cmd.maybe_comment {
                        Some(c) => Some(c@),
                        None => l.comment,
                    },
                    ..l
                };
                match cmd.maybe_tags {
                    None => r == Ok::<LogView, ErrorView>(commented),
                    Some(t) => match tags_written(Some(t@)) {
                        Err(e) => r == Err::<LogView, ErrorView>(e),
                        Ok(tags) => r == Ok::<LogView, ErrorView>(LogView { tags, ..commented }),
                    },
                }
            },
        }
}

/// Whether `timed` is `log` with its time taken from the request, or from
/// `now` where the request gives none.
pub open spec fn log_timed(cmd: StopLog, log: LogView, now: Timestamp, timed: Result<
    LogView,
    ErrorView,
>) -> bool {
    match (cmd.maybe_duration, cmd.maybe_stop_time) {
        (None, None) => stopped(log, now, timed),
        _ => with_duration_or_stop(log, cmd.maybe_duration, cmd.maybe_stop_time, timed),
    }
}

impl StopLog {
    /// The log as stopped by this request at the moment `now`.
    pub fn apply(&self, log: Log, now: Timestamp) -> (r: Result<Log, Error>)
        ensures
            log_stopped(*self, log@, now, log_result(r)),
    {
        let ghost before = log@;
        let timed = log.with_duration_or_stop_or_now(self.maybe_duration, self.maybe_stop_time, now);
        let ghost witness = log_result(timed);
        let mut log = match timed {
            Ok(l) => l,
            Err(e) => {
                proof {
                    assert(log_timed(*self, before, now, witness));
                }
                return Err(e);
            },
        };
        match &self.maybe_comment {
            Some(comment) => {
                log = log.with_comment(comment.as_str());
            },
            None => {},
        }
        match &self.maybe_tags {
            Some(tags) => {
                match log.with_tags(parse_comma_separated(Some(tags.clone()))) {
                    Ok(l) => {
                        log = l;
                    },
                    Err(e) => {
                        proof {
                            assert(log_timed(*self, before, now, witness));
                        }
                        return Err(e);
                    },
                }
            },
            None => {},
        }
        proof {
            assert(log_timed(*self, before, now, witness));
        }
        Ok(log)
    }
}

/// The project to add and where its document is written.
pub fn add_project(store: &Store, params: &AddProject) -> (r: Result<(Project, String), Error>)
    ensures
        match r {
            Ok(p) => project_wanted(*params) == Ok::<ProjectView, ErrorView>(p.0@) && p.1@
                == path_join(path_join(store.root(), p.0@.id), "project.json"@),
            Err(e) => project_wanted(*params) == Err::<ProjectView, ErrorView>(e@),
        },
{
    match params.to_project() {
        Ok(project) => {
            let path = store.save_project(&project);
            Ok((project, path))
        },
        Err(e) => Err(e),
    }
}

/// The identifier of the project to remove and the directory to remove for
/// it, given whether that directory is there.
pub fn remove_project(store: &Store, params: &RemoveProject, exists: bool) -> (r: Result<
    (String, String),
    Error,
>)
    ensures
        match r {
            Ok(p) => exists && p.0@ == params.id@ && p.1@ == path_join(store.root(), params.id@),
            Err(e) => !exists && e@ == ErrorView::ProjectNotFound(params.id@),
        },
{
    match store.remove_project(params.id.as_str(), exists) {
        Ok(path) => Ok((params.id.clone(), path)),
        Err(e) => Err(e),
    }
}

/// The task to add as it is to be written, given its project, the
/// configuration, and the numbers that the names of the project's task
/// directories stand for.
pub fn add_task(
    store: &Store,
    params: &AddTask,
    project: &Project,
    config: &Config,
    sibling_ids: &Vec<u32>,
) -> (r: Result<Task, Error>)
    requires
        ids_have_room(sibling_ids@),
    ensures
        task_outcome(r) == match task_wanted(*params) {
            Err(e) => Err::<TaskView, ErrorView>(e),
            Ok(t) => task_to_save(
                t,
                match project@.task_state_config {
                    Some(c) => c,
                    None => config.states_view(),
                },
                sibling_ids@,
            ),
        },
{
    match params.to_task() {
        Ok(task) => store.save_task(&task, project, config, sibling_ids),
        Err(e) => Err(e),
    }
}

/// The filters that pick the tasks to update: the one project, and the tasks
/// with the numbers given.
pub fn update_tasks(params: &UpdateTask) -> (r: Result<
    (FilterSpec<ProjectFilter>, FilterSpec<TaskFilter>),
    Error,
>)
    ensures
        match r {
            Ok(f) => numbers_parsed(comma_separated(Some(params.task_ids@)), u32::MAX as nat)
                matches Ok(numbers) && project_filters(f.0) == seq![
                ProjectFilterView::Ids(seq![params.project_id@]),
            ] && task_filters(f.1) == seq![
                TaskFilterView::Ids(numbers.map_values(|n: nat| n as u32)),
            ],
            Err(e) => numbers_parsed(comma_separated(Some(params.task_ids@)), u32::MAX as nat)
                matches Err(fault) && e@ == ErrorView::InvalidTaskIds(params.task_ids@, fault),
        },
{
    let task_ids = match parse_task_ids(&params.task_ids) {
        Ok(ids) => ids,
        Err(e) => {
            return Err(e);
        },
    };
    let mut ids: Vec<String> = Vec::new();
    ids.push(params.project_id.clone());
    assert(lines(ids@) == seq![params.project_id@]);
    let project_filter = FilterSpec::new(ProjectFilter::Ids(ids));
    let task_filter = FilterSpec::new(TaskFilter::Ids(task_ids));
    assert(project_filters(project_filter) == seq![
        ProjectFilterView::Ids(seq![params.project_id@]),
    ]);
    assert(task_filters(task_filter) == seq![TaskFilterView::Ids(task_ids@)]);
    Ok((project_filter, task_filter))
}

/// The log to add as it is to be written, given whether the directories of
/// its project and of its task are there, and the numbers that the names of
/// the files in its folder stand for.
pub fn add_log(
    store: &Store,
    params: &AddLog,
    project_exists: bool,
    task_exists: bool,
    sibling_ids: &Vec<u32>,
) -> (r: Result<Log, Error>)
    requires
        ids_have_room(sibling_ids@),
    ensures
        exists|wanted: Result<LogView, ErrorView>| #[trigger]
            log_wanted(*params, wanted) && log_result(r) == match wanted {
                Err(e) => Err::<LogView, ErrorView>(e),
                Ok(l) => log_to_save(l, project_exists, task_exists, sibling_ids@),
            },
{
    let wanted = params.to_log();
    let ghost witness = log_result(wanted);
    let r = match wanted {
        Ok(log) => store.save_log(&log, project_exists, task_exists, sibling_ids),
        Err(e) => Err(e),
    };
    proof {
        assert(log_wanted(*params, witness));
    }
    r
}

/// What is found on disk about the place of a log.
#[derive(Debug, Clone)]
pub struct LogPlace {
    /// Whether the directory of the project is there.
    pub project_exists: bool,
    /// Whether the directory of the task is there.
    pub task_exists: bool,
    /// The numbers that the names of the files in the log's folder stand for.
    pub sibling_ids: Vec<u32>,
}

/// The next thing to do in order to start a log.
#[derive(Debug, Clone)]
pub enum StartLogStep {
    /// A log is being tracked. Stop it first, the log of this project, task
    /// and number, as the request says; then ask again with the record of
    /// the tracked log as it is then.
    StopFirst(String, Option<u32>, u32, StopLog),
    /// Nothing is being tracked and the request is sound. Look up the place
    /// of the new log, under this project and task; then ask again with what
    /// was found.
    Look(String, Option<u32>),
    /// Write this log, and this record of the tracked log, which names it.
    Write(Log, State),
}

/// What a step holds.
pub enum StartLogStepView {
    StopFirst(Seq<char>, Option<u32>, u32),
    Look(Seq<char>, Option<u32>),
    Write(LogView, Option<(Seq<char>, Option<u32>, u32)>),
}

/// Whether a request to stop asks for nothing but to stop the tracked log now.
pub open spec fn stops_the_tracked_log(request: StopLog) -> bool {
    &&& request.maybe_project_id is None
    &&& request.maybe_task_id is None
    &&& request.maybe_id is None
    &&& request.maybe_stop_time is None
    &&& request.maybe_duration is None
    &&& request.maybe_comment is None
    &&& request.maybe_tags is None
}

impl View for StartLogStep {
    type V = StartLogStepView;

    open spec fn view(&self) -> StartLogStepView {
        match self {
            StartLogStep::StopFirst(p, t, id, _) => StartLogStepView::StopFirst(p@, *t, *id),
            StartLogStep::Look(p, t) => StartLogStepView::Look(p@, *t),
            StartLogStep::Write(log, state) => StartLogStepView::Write(log@, state.active()),
        }
    }
}

/// The next step in starting a log, so that never more than one log is
/// being tracked.
///
/// A log that is being tracked is stopped before anything else, whatever
/// the request is. Then the request is checked. Then the place of the new
/// log is looked up. Then the log is written as the store's rules give it,
/// open, together with the record that names it as the tracked log.
pub open spec fn start_log_step(
    cmd: StartLog,
    active: Option<(Seq<char>, Option<u32>, u32)>,
    found: Option<LogPlace>,
) -> Result<StartLogStepView, ErrorView> {
    match active {
        Some(a) => Ok(StartLogStepView::StopFirst(a.0, a.1, a.2)),
        None => match log_started(cmd) {
            Err(e) => Err(e),
            Ok(l) => match found {
                None => Ok(StartLogStepView::Look(cmd.project_id@, cmd.maybe_task_id)),
                Some(f) => match log_to_save(
                    l,
                    f.project_exists,
                    f.task_exists,
                    f.sibling_ids@,
                ) {
                    Err(e) => Err(e),
                    Ok(saved) => Ok(
                        StartLogStepView::Write(
                            saved,
                            Some((cmd.project_id@, cmd.maybe_task_id, saved.id.unwrap())),
                        ),
                    ),
                },
            },
        },
    }
}

/// The next step in starting a log, given the record of the tracked log and,
/// once it was looked up, what was found about the place of the new log.
pub fn start_log(store: &Store, params: &StartLog, state: State, found: Option<&LogPlace>) -> (r:
    Result<StartLogStep, Error>)
    requires
        found matches Some(f) ==> ids_have_room(f.sibling_ids@),
    ensures
        match r {
            Ok(step) => start_log_step(
                *params,
                state.active(),
                match found {
                    Some(f) => Some(*f),
                    None => None,
                },
            ) == Ok::<StartLogStepView, ErrorView>(step@),
            Err(e) => start_log_step(
                *params,
                state.active(),
                match found {
                    Some(f) => Some(*f),
                    None => None,
                },
            ) == Err::<StartLogStepView, ErrorView>(e@),
        },
        r matches Ok(StartLogStep::StopFirst(_, _, _, request)) ==> stops_the_tracked_log(request),
        r matches Ok(StartLogStep::Write(log, _)) ==> log@.is_open(),
{
    match state.active_log() {
        Some(a) => {
            return Ok(StartLogStep::StopFirst(a.0, a.1, a.2, StopLog::default()));
        },
        None => {},
    }
    let log = match params.to_log() {
        Ok(l) => l,
        Err(e) => {
            return Err(e);
        },
    };
    let place = match found {
        Some(f) => f,
        None => {
            return Ok(StartLogStep::Look(params.project_id.clone(), params.maybe_task_id));
        },
    };
    let log = match store.save_log(&log, place.project_exists, place.task_exists, &place.sibling_ids) {
        Ok(l) => l,
        Err(e) => {
            return Err(e);
        },
    };
    match log.id() {
        Some(id) => {
            let state = state.with_active_log(params.project_id.as_str(), params.maybe_task_id, id);
            Ok(StartLogStep::Write(log, state))
        },
        None => Err(Error::LogMissingId(log)),
    }
}

/// The task of a log that was started, put into the state for work in
/// progress: that of the project's own states where it has any, that of the
/// configuration where it has none.
pub fn start_log_task(task: Task, project: &Project, config: &Config) -> (r: Task)
    ensures
        r@ == (TaskView {
            state: Some(
                match project@.task_state_config {
                    Some(c) => c.in_progress,
                    None => config.states_view().in_progress,
                },
            ),
            ..task@
        }),
{
    let task_state_config = match project.task_state_config() {
        Some(c) => c,
        None => config.task_state_config(),
    };
    task.with_state(task_state_config.in_progress())
}

/// The projects found, sorted as the request asks.
pub fn list_projects(found: Vec<Project>, params: &ListProjects) -> (r: Result<Vec<Project>, Error>)
    ensures
        r is Ok ==> exists|keys: Seq<(ProjectField, Order)>, places: Seq<int>|
            sort_spec_parsed::<ProjectField>(params.sort@) == Ok::<Seq<(ProjectField, Order)>, ErrorView>(keys)
                && #[trigger] is_ordered_by(keys, found@, r->Ok_0@, places),
        r matches Err(e) ==> sort_spec_parsed::<ProjectField>(params.sort@) == Err::<
            Seq<(ProjectField, Order)>,
            ErrorView,
        >(e@),
{
    let ghost items = found@;
    match SortSpec::<ProjectField>::from_str(params.sort.as_str()) {
        Ok(spec) => {
            let sorted = spec.sort(found);
            let out: Result<Vec<Project>, Error> = Ok(sorted);
            proof {
                let places = choose|places: Seq<int>|
                    is_ordered_by(spec.keys(), items, sorted@, places);
                assert(is_ordered_by(spec.keys(), items, out->Ok_0@, places));
            }
            out
        },
        Err(e) => Err(e),
    }
}

/// The tasks found, sorted as the request asks.
pub fn list_tasks(found: Vec<Task>, params: &ListTasks) -> (r: Result<Vec<Task>, Error>)
    ensures
        r is Ok ==> exists|keys: Seq<(TaskField, Order)>, places: Seq<int>|
            sort_spec_parsed::<TaskField>(params.sort@) == Ok::<Seq<(TaskField, Order)>, ErrorView>(keys)
                && #[trigger] is_ordered_by(keys, found@, r->Ok_0@, places),
        r matches Err(e) ==> sort_spec_parsed::<TaskField>(params.sort@) == Err::<
            Seq<(TaskField, Order)>,
            ErrorView,
        >(e@),
{
    let ghost items = found@;
    match SortSpec::<TaskField>::from_str(params.sort.as_str()) {
        Ok(spec) => {
            let sorted = spec.sort(found);
            let out: Result<Vec<Task>, Error> = Ok(sorted);
            proof {
                let places = choose|places: Seq<int>|
                    is_ordered_by(spec.keys(), items, sorted@, places);
                assert(is_ordered_by(spec.keys(), items, out->Ok_0@, places));
            }
            out
        },
        Err(e) => Err(e),
    }
}

/// The logs found, sorted as the request asks.
pub fn list_logs(found: Vec<Log>, params: &ListLogs) -> (r: Result<Vec<Log>, Error>)
    ensures
        r is Ok ==> exists|keys: Seq<(LogField, Order)>, places: Seq<int>|
            sort_spec_parsed::<LogField>(params.sort@) == Ok::<Seq<(LogField, Order)>, ErrorView>(keys)
                && #[trigger] is_ordered_by(keys, found@, r->Ok_0@, places),
        r matches Err(e) ==> sort_spec_parsed::<LogField>(params.sort@) == Err::<
            Seq<(LogField, Order)>,
            ErrorView,
        >(e@),
{
    let ghost items = found@;
    match SortSpec::<LogField>::from_str(params.sort.as_str()) {
        Ok(spec) => {
            let sorted = spec.sort(found);
            let out: Result<Vec<Log>, Error> = Ok(sorted);
            proof {
                let places = choose|places: Seq<int>|
                    is_ordered_by(spec.keys(), items, sorted@, places);
                assert(is_ordered_by(spec.keys(), items, out->Ok_0@, places));
            }
            out
        },
        Err(e) => Err(e),
    }
}

/// The tracked log and the time since it started; nothing for a log without
/// a start.
pub fn active_log_status(log: Log, now: Timestamp) -> (r: Option<LogStatus>)
    ensures
        match log@.start {
            Some(start) => r matches Some(status) && status.log@ == log@
                && crate::worklog::span_is(status.active_for, start, now),
            None => r is None,
        },
{
    match log.start() {
        Some(start) => {
            let active_for = now.since(&start);
            Some(LogStatus { log, active_for })
        },
        None => None,
    }
}

/// The states that tasks can be in: those of the project where one is given,
/// those of the configuration where none is.
pub fn task_states(config: &Config, maybe_project: Option<&Project>) -> (r: Vec<String>)
    ensures
        lines(r@) == match maybe_project {
            Some(p) => match p@.task_state_config {
                Some(c) => c.states,
                None => config.states_view().states,
            },
            None => config.states_view().states,
        },
{
    let default_tsc = config.task_state_config();
    match maybe_project {
        Some(p) => p.task_states(default_tsc),
        None => copy_lines(default_tsc.states()),
    }
}

/// The directory to set up as a repository with a remote: the storage root,
/// unless it is one already.
pub fn remote_init(store: &Store, params: &RemoteInit, initialized: bool) -> (r: Result<
    String,
    Error,
>)
    ensures
        match r {
            Ok(path) => !initialized && path@ == store.root(),
            Err(e) => initialized && e@ == ErrorView::RemoteAlreadyInitialized(store.root()),
        },
{
    if initialized {
        Err(Error::RemoteAlreadyInitialized(owned(store.path())))
    } else {
        Ok(owned(store.path()))
    }
}

/// The directory to commit and push from: the storage root, if it is a
/// repository.
pub fn remote_push(store: &Store, initialized: bool) -> (r: Result<String, Error>)
    ensures
        match r {
            Ok(path) => initialized && path@ == store.root(),
            Err(e) => !initialized && e@ == ErrorView::NotRemote(store.root()),
        },
{
    if initialized {
        Ok(owned(store.path()))
    } else {
        Err(Error::NotRemote(owned(store.path())))
    }
}

/// The directory to pull into: the storage root, if it is a repository.
pub fn remote_pull(store: &Store, initialized: bool) -> (r: Result<String, Error>)
    ensures
        match r {
            Ok(path) => initialized && path@ == store.root(),
            Err(e) => !initialized && e@ == ErrorView::NotRemote(store.root()),
        },
{
    if initialized {
        Ok(owned(store.path()))
    } else {
        Err(Error::NotRemote(owned(store.path())))
    }
}

} // verus!
