//! Tasks: the units of work within a project.

use vstd::prelude::*;
use crate::error::{Error, ErrorView};
use crate::filter::{Filter, FilterSpec, TimestampFilter, TimestampFilterView};
use crate::project::{copy_optional, optional_text};
use crate::ranking::{
    lemma_optional_moment_ranked, lemma_optional_number_ranked, lemma_optional_text_ranked,
    lemma_text_carried, lemma_text_mirrored,
};
use crate::sort::{
    number_order, number_relation, optional_moment_order, optional_moment_relation,
    optional_number_order, optional_number_relation, optional_text_order, optional_text_relation,
    text_order, text_relation, Comparator, Order, Relation, SortSpec,
};
use crate::tags::{collect_tags, copy_lines, holds, share_one, tags_intersect, tags_of};
use crate::text::{chars_of, lines, owned, same_text, spells, string_of};
use crate::timestamp::Timestamp;

verus! {

/// The smallest priority value; it marks the most urgent work.
pub const MIN_TASK_PRIORITY: u8 = 1;

/// The largest priority value; it marks the least urgent work.
pub const MAX_TASK_PRIORITY: u8 = 10;

/// The priority of a task that was given none: the least urgent.
pub const DEFAULT_TASK_PRIORITY: u8 = 10;

/// How urgent a priority is, in thirds of the range of priorities.
#[derive(Debug, Clone, Copy, PartialEq, Eq, Structural)]
pub enum Urgency {
    /// The most urgent third.
    High,
    /// The middle third.
    Medium,
    /// The rest.
    Low,
}

/// The urgency of a priority: up to a third of the largest priority is
/// high, up to two thirds is medium, anything above is low.
pub open spec fn urgency_of(priority: u8) -> Urgency {
    if priority <= MAX_TASK_PRIORITY / 3 {
        Urgency::High
    } else if priority <= 2 * (MAX_TASK_PRIORITY / 3) {
        Urgency::Medium
    } else {
        Urgency::Low
    }
}

/// Tells how urgent a priority is.
pub fn urgency(priority: u8) -> (r: Urgency)
    ensures
        r == urgency_of(priority),
{
    let third = MAX_TASK_PRIORITY / 3;
    if priority <= third {
        Urgency::High
    } else if priority <= 2 * third {
        Urgency::Medium
    } else {
        Urgency::Low
    }
}

/// A task of a project.
#[derive(Debug, PartialEq)]
pub struct Task {
    maybe_project_id: Option<String>,
    maybe_id: Option<u32>,
    maybe_priority: Option<u8>,
    description: String,
    maybe_state: Option<String>,
    maybe_deadline: Option<Timestamp>,
    tags: Vec<String>,
}

/// What a [`Task`] holds.
pub struct TaskView {
    pub project_id: Option<Seq<char>>,
    pub id: Option<u32>,
    pub priority: Option<u8>,
    pub description: Seq<char>,
    pub state: Option<Seq<char>>,
    pub deadline: Option<Timestamp>,
    pub tags: Seq<Seq<char>>,
}

impl TaskView {
    /// The priority that counts: the one given, or the least urgent.
    pub open spec fn effective_priority(self) -> u8 {
        match self.priority {
            Some(p) => p,
            None => DEFAULT_TASK_PRIORITY,
        }
    }
}

impl View for Task {
    type V = TaskView;

    closed spec fn view(&self) -> TaskView {
        TaskView {
            project_id: optional_text(self.maybe_project_id),
            id: self.maybe_id,
            priority: self.maybe_priority,
            description: self.description@,
            state: optional_text(self.maybe_state),
            deadline: self.maybe_deadline,
            tags: lines(self.tags@),
        }
    }
}

impl Clone for Task {
    fn clone(&self) -> (r: Self)
        ensures
            r@ == self@,
    {
        Task {
            maybe_project_id: copy_optional(&self.maybe_project_id),
            maybe_id: self.maybe_id,
            maybe_priority: self.maybe_priority,
            description: self.description.clone(),
            maybe_state: copy_optional(&self.maybe_state),
            maybe_deadline: self.maybe_deadline,
            tags: copy_lines(&self.tags),
        }
    }
}

/// The text of an optional string, borrowed.
pub fn optional_str(s: &Option<String>) -> (r: Option<&str>)
    ensures
        match r {
            Some(t) => optional_text(*s) == Some(t@),
            None => optional_text(*s) is None,
        },
{
    match s {
        Some(t) => Some(t.as_str()),
        None => None,
    }
}

impl Task {
    /// A task of this project with this description and nothing else.
    pub fn new(project_id: &str, description: &str) -> (r: Self)
        ensures
            r@ == (TaskView {
                project_id: Some(project_id@),
                id: None,
                priority: None,
                description: description@,
                state: None,
                deadline: None,
                tags: Seq::empty(),
            }),
    {
        let tags: Vec<String> = Vec::new();
        assert(lines(tags@) == Seq::<Seq<char>>::empty());
        Task {
            maybe_project_id: Some(owned(project_id)),
            maybe_id: None,
            maybe_priority: None,
            description: owned(description),
            maybe_state: None,
            maybe_deadline: None,
            tags,
        }
    }

    /// The task as one of this project.
    pub fn with_project_id(self, project_id: &str) -> (r: Self)
        ensures
            r@ == (TaskView { project_id: Some(project_id@), ..self@ }),
    {
        Task { maybe_project_id: Some(owned(project_id)), ..self }
    }

    /// The task as one of this project, or of none: a task as it is read
    /// from its document, before it is told where it lies.
    pub fn with_maybe_project_id(self, maybe_project_id: Option<String>) -> (r: Self)
        ensures
            r@ == (TaskView { project_id: optional_text(maybe_project_id), ..self@ }),
    {
        Task { maybe_project_id, ..self }
    }

    /// The task with this number.
    pub fn with_id(self, id: u32) -> (r: Self)
        ensures
            r@ == (TaskView { id: Some(id), ..self@ }),
    {
        Task { maybe_id: Some(id), ..self }
    }

    /// The task with this priority, which has to lie between the most and
    /// the least urgent.
    pub fn with_priority(self, priority: u8) -> (r: Result<Self, Error>)
        ensures
            match r {
                Ok(t) => MIN_TASK_PRIORITY <= priority <= MAX_TASK_PRIORITY && t@ == (TaskView {
                    priority: Some(priority),
                    ..self@
                }),
                Err(e) => !(MIN_TASK_PRIORITY <= priority <= MAX_TASK_PRIORITY) && e@
                    == ErrorView::InvalidTaskPriority(
                    priority,
                    MIN_TASK_PRIORITY,
                    MAX_TASK_PRIORITY,
                ),
            },
    {
        if priority < MIN_TASK_PRIORITY || priority > MAX_TASK_PRIORITY {
            return Err(Error::InvalidTaskPriority(priority, MIN_TASK_PRIORITY, MAX_TASK_PRIORITY));
        }
        Ok(Task { maybe_priority: Some(priority), ..self })
    }

    /// The task with this description.
    pub fn with_description(self, description: &str) -> (r: Self)
        ensures
            r@ == (TaskView { description: description@, ..self@ }),
    {
        Task { description: owned(description), ..self }
    }

    /// The task in this state.
    pub fn with_state(self, state: &str) -> (r: Self)
        ensures
            r@ == (TaskView { state: Some(state@), ..self@ }),
    {
        Task { maybe_state: Some(owned(state)), ..self }
    }

    /// The task in this state, or in none.
    pub fn with_maybe_state(self, maybe_state: Option<String>) -> (r: Self)
        ensures
            r@ == (TaskView { state: optional_text(maybe_state), ..self@ }),
    {
        Task { maybe_state, ..self }
    }

    /// The task with this deadline.
    pub fn with_deadline(self, deadline: Timestamp) -> (r: Self)
        ensures
            r@ == (TaskView { deadline: Some(deadline), ..self@ }),
    {
        Task { maybe_deadline: Some(deadline), ..self }
    }

    /// The task with this deadline, or without one.
    pub fn with_maybe_deadline(self, maybe_deadline: Option<Timestamp>) -> (r: Self)
        ensures
            r@ == (TaskView { deadline: maybe_deadline, ..self@ }),
    {
        Task { maybe_deadline, ..self }
    }

    /// The task with these tags in place of those it had. Each tag is taken
    /// in lower case, and once.
    pub fn with_tags(self, tags: Vec<String>) -> (r: Result<Self, Error>)
        ensures
            match r {
                Ok(p) => tags_of(lines(tags@)) matches Ok(t) && p@ == (TaskView { tags: t, ..self@ }),
                Err(e) => tags_of(lines(tags@)) == Err::<Seq<Seq<char>>, ErrorView>(e@),
            },
    {
        match collect_tags(&tags) {
            Ok(tags) => Ok(Task { tags, ..self }),
            Err(e) => Err(e),
        }
    }

    /// The identifier of the project.
    pub fn project_id(&self) -> (r: Option<&str>)
        ensures
            match r {
                Some(t) => self@.project_id == Some(t@),
                None => self@.project_id is None,
            },
    {
        optional_str(&self.maybe_project_id)
    }

    /// The number of the task.
    pub fn id(&self) -> (r: Option<u32>)
        ensures
            r == self@.id,
    {
        self.maybe_id
    }

    /// The priority that the task was given, if it was given one.
    pub fn given_priority(&self) -> (r: Option<u8>)
        ensures
            r == self@.priority,
    {
        self.maybe_priority
    }

    /// The priority: the one given, or the least urgent.
    pub fn priority(&self) -> (r: u8)
        ensures
            r == self@.effective_priority(),
    {
        match self.maybe_priority {
            Some(p) => p,
            None => DEFAULT_TASK_PRIORITY,
        }
    }

    /// The description.
    pub fn description(&self) -> (r: &str)
        ensures
            r@ == self@.description,
    {
        self.description.as_str()
    }

    /// The state.
    pub fn state(&self) -> (r: Option<&str>)
        ensures
            match r {
                Some(t) => self@.state == Some(t@),
                None => self@.state is None,
            },
    {
        optional_str(&self.maybe_state)
    }

    /// The deadline.
    pub fn deadline(&self) -> (r: Option<Timestamp>)
        ensures
            r == self@.deadline,
    {
        self.maybe_deadline
    }

    /// The tags.
    pub fn tags(&self) -> (r: &Vec<String>)
        ensures
            lines(r@) == self@.tags,
    {
        &self.tags
    }
}

/// The fields by which tasks can be sorted.
#[derive(Debug, Clone, Copy, PartialEq, Eq, Structural)]
pub enum TaskField {
    Id,
    ProjectId,
    Description,
    Priority,
    State,
    Deadline,
}

impl TaskField {
    /// The field by which tasks are sorted where none is named.
    pub fn default() -> (r: Self)
        ensures
            r == TaskField::Id,
    {
        TaskField::Id
    }
}

impl Comparator for TaskField {
    type Type = Task;

    open spec fn relation(&self, a: &Task, b: &Task) -> Relation {
        match self {
            TaskField::Id => optional_number_relation(a@.id, b@.id),
            TaskField::ProjectId => optional_text_relation(a@.project_id, b@.project_id),
            TaskField::Description => text_relation(a@.description, b@.description),
            TaskField::Priority => number_relation(
                a@.effective_priority() as int,
                b@.effective_priority() as int,
            ),
            TaskField::State => optional_text_relation(a@.state, b@.state),
            TaskField::Deadline => optional_moment_relation(a@.deadline, b@.deadline),
        }
    }

    open spec fn named(s: Seq<char>) -> Result<Self, ErrorView> {
        if s == "id"@ {
            Ok(TaskField::Id)
        } else if s == "project_id"@ || s == "project-id"@ || s == "project"@ {
            Ok(TaskField::ProjectId)
        } else if s == "description"@ || s == "desc"@ {
            Ok(TaskField::Description)
        } else if s == "priority"@ {
            Ok(TaskField::Priority)
        } else if s == "state"@ {
            Ok(TaskField::State)
        } else if s == "deadline"@ {
            Ok(TaskField::Deadline)
        } else {
            Err(ErrorView::UnrecognizedTaskField(s))
        }
    }

    open spec fn name(&self) -> Seq<char> {
        match self {
            TaskField::Id => "id"@,
            TaskField::ProjectId => "project-id"@,
            TaskField::Description => "description"@,
            TaskField::Priority => "priority"@,
            TaskField::State => "state"@,
            TaskField::Deadline => "deadline"@,
        }
    }

    fn cmp(&self, a: &Task, b: &Task) -> (r: Relation) {
        match self {
            TaskField::Id => optional_number_order(a.id(), b.id()),
            TaskField::ProjectId => optional_text_order(a.project_id(), b.project_id()),
            TaskField::Description => text_order(a.description(), b.description()),
            TaskField::Priority => number_order(a.priority().into(), b.priority().into()),
            TaskField::State => optional_text_order(a.state(), b.state()),
            TaskField::Deadline => optional_moment_order(a.deadline(), b.deadline()),
        }
    }

    fn from_str(s: &str) -> (r: Result<Self, Error>) {
        let v = chars_of(s);
        if spells(&v, "id") {
            Ok(TaskField::Id)
        } else if spells(&v, "project_id") || spells(&v, "project-id") || spells(&v, "project") {
            Ok(TaskField::ProjectId)
        } else if spells(&v, "description") || spells(&v, "desc") {
            Ok(TaskField::Description)
        } else if spells(&v, "priority") {
            Ok(TaskField::Priority)
        } else if spells(&v, "state") {
            Ok(TaskField::State)
        } else if spells(&v, "deadline") {
            Ok(TaskField::Deadline)
        } else {
            Err(Error::UnrecognizedTaskField(string_of(&v)))
        }
    }

    fn to_string(&self) -> (r: String) {
        match self {
            TaskField::Id => owned("id"),
            TaskField::ProjectId => owned("project-id"),
            TaskField::Description => owned("description"),
            TaskField::Priority => owned("priority"),
            TaskField::State => owned("state"),
            TaskField::Deadline => owned("deadline"),
        }
    }

    proof fn lemma_ranking(&self, a: &Task, b: &Task, c: &Task) {
        lemma_optional_number_ranked(a@.id, b@.id, c@.id);
        lemma_optional_text_ranked(a@.project_id, b@.project_id, c@.project_id);
        lemma_text_mirrored(a@.description, b@.description);
        lemma_text_carried(a@.description, b@.description, c@.description);
        lemma_optional_text_ranked(a@.state, b@.state, c@.state);
        lemma_optional_moment_ranked(a@.deadline, b@.deadline, c@.deadline);
    }
}

/// How tasks are sorted where nothing is asked for: by priority, then by
/// project, then by number, all ascending.
pub fn default_task_sort() -> (r: SortSpec<TaskField>)
    ensures
        r.keys() == seq![
            (TaskField::Priority, Order::Asc),
            (TaskField::ProjectId, Order::Asc),
            (TaskField::Id, Order::Asc),
        ],
{
    SortSpec::new(TaskField::Priority, Order::Asc).and_then(
        TaskField::ProjectId,
        Order::Asc,
    ).and_then(TaskField::Id, Order::Asc)
}

/// The filters on tasks.
#[derive(Debug, Clone, PartialEq)]
pub enum TaskFilter {
    /// Every task.
    All,
    /// The tasks of this project.
    Project(String),
    /// The tasks with one of these numbers.
    Ids(Vec<u32>),
    /// The tasks with one of these priorities.
    Priority(Vec<u8>),
    /// The tasks in one of these states.
    State(Vec<String>),
    /// The tasks that are not in this state.
    StateNot(String),
    /// The tasks that have a deadline, and one that the filter wants.
    Deadline(TimestampFilter),
    /// The tasks that carry at least one of these tags.
    Tags(Vec<String>),
}

/// What a [`TaskFilter`] holds.
pub enum TaskFilterView {
    All,
    Project(Seq<char>),
    Ids(Seq<u32>),
    Priority(Seq<u8>),
    State(Seq<Seq<char>>),
    StateNot(Seq<char>),
    Deadline(TimestampFilterView),
    Tags(Seq<Seq<char>>),
}

impl View for TaskFilter {
    type V = TaskFilterView;

    open spec fn view(&self) -> TaskFilterView {
        match self {
            TaskFilter::All => TaskFilterView::All,
            TaskFilter::Project(id) => TaskFilterView::Project(id@),
            TaskFilter::Ids(ids) => TaskFilterView::Ids(ids@),
            TaskFilter::Priority(priorities) => TaskFilterView::Priority(priorities@),
            TaskFilter::State(states) => TaskFilterView::State(lines(states@)),
            TaskFilter::StateNot(state) => TaskFilterView::StateNot(state@),
            TaskFilter::Deadline(f) => TaskFilterView::Deadline(f@),
            TaskFilter::Tags(tags) => TaskFilterView::Tags(lines(tags@)),
        }
    }
}

/// What the filters of a specification hold, in order.
pub open spec fn task_filters(spec: FilterSpec<TaskFilter>) -> Seq<TaskFilterView> {
    spec.filters().map_values(|f: TaskFilter| f@)
}

/// The filters with one more: in place of a lone filter for everything,
/// else behind the others.
pub open spec fn task_then(filters: Seq<TaskFilterView>, filter: TaskFilterView) -> Seq<
    TaskFilterView,
> {
    if filters.len() == 1 && filters[0] is All {
        seq![filter]
    } else {
        filters.push(filter)
    }
}

/// The specification that asks for `filter` as well.
pub fn then_task(spec: FilterSpec<TaskFilter>, filter: TaskFilter) -> (r: FilterSpec<TaskFilter>)
    ensures
        task_filters(r) == task_then(task_filters(spec), filter@),
        r.filters().len() >= 1,
{
    let ghost before = spec.filters();
    let r = spec.and_then(filter);
    proof {
        if before.len() == 1 {
            assert(before[0]@ is All <==> before[0] is All);
            assert(task_filters(spec)[0] == before[0]@);
        }
        assert(task_filters(r) =~= task_then(task_filters(spec), filter@));
    }
    r
}

impl TaskFilter {
    /// The filter that is used where none is given: every task.
    pub fn default() -> (r: Self)
        ensures
            r is All,
    {
        TaskFilter::All
    }
}

/// Tells whether `n` is among `list`.
pub fn holds_number(list: &Vec<u32>, n: u32) -> (r: bool)
    ensures
        r == list@.contains(n),
{
    let mut i: usize = 0;
    while i < list.len()
        invariant
            i <= list.len(),
            forall|k: int| 0 <= k < i ==> list@[k] != n,
        decreases list.len() - i,
    {
        if list[i] == n {
            return true;
        }
        i = i + 1;
    }
    false
}

/// Tells whether `p` is among `list`.
pub fn holds_priority(list: &Vec<u8>, p: u8) -> (r: bool)
    ensures
        r == list@.contains(p),
{
    let mut i: usize = 0;
    while i < list.len()
        invariant
            i <= list.len(),
            forall|k: int| 0 <= k < i ==> list@[k] != p,
        decreases list.len() - i,
    {
        if list[i] == p {
            return true;
        }
        i = i + 1;
    }
    false
}

impl Filter for TaskFilter {
    type Type = Task;

    open spec fn accepts(&self, task: &Task, now: Timestamp) -> bool {
        match self {
            TaskFilter::All => true,
            TaskFilter::Project(project_id) => task@.project_id == Some(project_id@),
            TaskFilter::Ids(ids) => match task@.id {
                Some(id) => ids@.contains(id),
                None => false,
            },
            TaskFilter::Priority(priorities) => priorities@.contains(task@.effective_priority()),
            TaskFilter::State(states) => match task@.state {
                Some(state) => lines(states@).contains(state),
                None => false,
            },
            TaskFilter::StateNot(state) => match task@.state {
                Some(s) => s != state@,
                None => true,
            },
            TaskFilter::Deadline(f) => match task@.deadline {
                Some(deadline) => f.accepts(now, deadline),
                None => false,
            },
            TaskFilter::Tags(tags) => share_one(task@.tags, lines(tags@)),
        }
    }

    open spec fn usable_at(&self, now: Timestamp) -> bool {
        match self {
            TaskFilter::Deadline(f) => f.usable_at(now),
            _ => true,
        }
    }

    open spec fn is_all(&self) -> bool {
        self is All
    }

    fn matches(&self, task: &Task, now: Timestamp) -> (r: bool) {
        match self {
            TaskFilter::All => true,
            TaskFilter::Project(project_id) => match task.project_id() {
                Some(id) => same_text(id, project_id.as_str()),
                None => false,
            },
            TaskFilter::Ids(ids) => match task.id() {
                Some(id) => holds_number(ids, id),
                None => false,
            },
            TaskFilter::Priority(priorities) => holds_priority(priorities, task.priority()),
            TaskFilter::State(states) => match task.state() {
                Some(state) => holds(states, state),
                None => false,
            },
            TaskFilter::StateNot(state) => match task.state() {
                Some(s) => !same_text(s, state.as_str()),
                None => true,
            },
            TaskFilter::Deadline(f) => match task.deadline() {
                Some(deadline) => f.matches(now, deadline),
                None => false,
            },
            TaskFilter::Tags(tags) => tags_intersect(task.tags(), tags),
        }
    }

    fn is_default(&self) -> (r: bool) {
        match self {
            TaskFilter::All => true,
            _ => false,
        }
    }

    proof fn lemma_all_accepts(&self, task: &Task, now: Timestamp) {
    }
}

} // verus!
