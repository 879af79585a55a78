//! Projects: the units that tasks and logs are grouped under.

use vstd::prelude::*;
use crate::config::{TaskStateConfig, TaskStateConfigView};
use crate::error::{Error, ErrorView};
use crate::filter::{Filter, FilterSpec, TimestampFilter, TimestampFilterView};
use crate::ranking::{
    lemma_optional_moment_ranked, lemma_optional_text_ranked, lemma_text_carried,
    lemma_text_mirrored,
};
use crate::sort::{
    optional_moment_order, optional_moment_relation, optional_text_order, optional_text_relation,
    text_order, text_relation, Comparator, Order, Relation, SortSpec,
};
use crate::strings::{slug_of, slugify};
use crate::tags::{collect_tags, copy_lines, holds, share_one, tags_intersect, tags_of};
use crate::text::{chars_of, lines, owned, spells, string_of};
use crate::timestamp::Timestamp;

verus! {

/// A project. Its identifier is the slug of its name.
#[derive(Debug, PartialEq)]
pub struct Project {
    id: String,
    name: String,
    maybe_description: Option<String>,
    maybe_deadline: Option<Timestamp>,
    tags: Vec<String>,
    maybe_task_state_config: Option<TaskStateConfig>,
}

/// What a [`Project`] holds.
pub struct ProjectView {
    pub id: Seq<char>,
    pub name: Seq<char>,
    pub description: Option<Seq<char>>,
    pub deadline: Option<Timestamp>,
    pub tags: Seq<Seq<char>>,
    pub task_state_config: Option<TaskStateConfigView>,
}

/// What an optional string holds.
pub open spec fn optional_text(s: Option<String>) -> Option<Seq<char>> {
    match s {
        Some(t) => Some(t@),
        None => None,
    }
}

/// A copy of an optional string.
pub fn copy_optional(s: &Option<String>) -> (r: Option<String>)
    ensures
        optional_text(r) == optional_text(*s),
{
    match s {
        Some(t) => Some(t.clone()),
        None => None,
    }
}

impl View for Project {
    type V = ProjectView;

    closed spec fn view(&self) -> ProjectView {
        ProjectView {
            id: self.id@,
            name: self.name@,
            description: optional_text(self.maybe_description),
            deadline: self.maybe_deadline,
            tags: lines(self.tags@),
            task_state_config: match self.maybe_task_state_config {
                Some(c) => Some(c@),
                None => None,
            },
        }
    }
}

impl Clone for Project {
    fn clone(&self) -> (r: Self)
        ensures
            r@ == self@,
    {
        Project {
            id: self.id.clone(),
            name: self.name.clone(),
            maybe_description: copy_optional(&self.maybe_description),
            maybe_deadline: self.maybe_deadline,
            tags: copy_lines(&self.tags),
            maybe_task_state_config: match &self.maybe_task_state_config {
                Some(c) => Some(c.clone()),
                None => None,
            },
        }
    }
}

impl Project {
    /// A project with this name and nothing else.
    pub fn new(name: &str) -> (r: Self)
        ensures
            r@ == (ProjectView {
                id: slug_of(name@),
                name: name@,
                description: None,
                deadline: None,
                tags: Seq::empty(),
                task_state_config: None,
            }),
    {
        let tags: Vec<String> = Vec::new();
        assert(lines(tags@) == Seq::<Seq<char>>::empty());
        Project {
            id: slugify(name),
            name: owned(name),
            maybe_description: None,
            maybe_deadline: None,
            tags,
            maybe_task_state_config: None,
        }
    }

    /// The project under another name, and so under another identifier.
    pub fn with_name(self, name: &str) -> (r: Self)
        ensures
            r@ == (ProjectView { id: slug_of(name@), name: name@, ..self@ }),
    {
        Project { id: slugify(name), name: owned(name), ..self }
    }

    /// The project with this description.
    pub fn with_description(self, description: &str) -> (r: Self)
        ensures
            r@ == (ProjectView { description: Some(description@), ..self@ }),
    {
        Project { maybe_description: Some(owned(description)), ..self }
    }

    /// The project with this description, or without one.
    pub fn with_maybe_description(self, maybe_description: Option<String>) -> (r: Self)
        ensures
            r@ == (ProjectView { description: optional_text(maybe_description), ..self@ }),
    {
        Project { maybe_description, ..self }
    }

    /// The project with this deadline.
    pub fn with_deadline(self, deadline: Timestamp) -> (r: Self)
        ensures
            r@ == (ProjectView { deadline: Some(deadline), ..self@ }),
    {
        Project { maybe_deadline: Some(deadline), ..self }
    }

    /// The project with this deadline, or without one.
    pub fn with_maybe_deadline(self, maybe_deadline: Option<Timestamp>) -> (r: Self)
        ensures
            r@ == (ProjectView { deadline: maybe_deadline, ..self@ }),
    {
        Project { maybe_deadline, ..self }
    }

    /// The project with these tags in place of those it had. Each tag is
    /// taken in lower case, and once.
    pub fn with_tags(self, tags: Vec<String>) -> (r: Result<Self, Error>)
        ensures
            match r {
                Ok(p) => tags_of(lines(tags@)) matches Ok(t) && p@ == (ProjectView {
                    tags: t,
                    ..self@
                }),
                Err(e) => tags_of(lines(tags@)) == Err::<Seq<Seq<char>>, ErrorView>(e@),
            },
    {
        match collect_tags(&tags) {
            Ok(tags) => Ok(Project { tags, ..self }),
            Err(e) => Err(e),
        }
    }

    /// The project with task states of its own.
    pub fn with_task_state_config(self, config: &TaskStateConfig) -> (r: Self)
        ensures
            r@ == (ProjectView { task_state_config: Some(config@), ..self@ }),
    {
        Project { maybe_task_state_config: Some(config.clone()), ..self }
    }

    /// The identifier.
    pub fn id(&self) -> (r: &str)
        ensures
            r@ == self@.id,
    {
        self.id.as_str()
    }

    /// The name.
    pub fn name(&self) -> (r: &str)
        ensures
            r@ == self@.name,
    {
        self.name.as_str()
    }

    /// The description.
    pub fn description(&self) -> (r: Option<&str>)
        ensures
            match r {
                Some(d) => self@.description == Some(d@),
                None => self@.description is None,
            },
    {
        match &self.maybe_description {
            Some(d) => Some(d.as_str()),
            None => None,
        }
    }

    /// The deadline.
    pub fn deadline(&self) -> (r: Option<Timestamp>)
        ensures
            r == self@.deadline,
    {
        self.maybe_deadline
    }

    /// The tags.
    pub fn tags(&self) -> (r: &Vec<String>)
        ensures
            lines(r@) == self@.tags,
    {
        &self.tags
    }

    /// The project's own task states, if it has any.
    pub fn task_state_config(&self) -> (r: Option<&TaskStateConfig>)
        ensures
            match r {
                Some(c) => self@.task_state_config == Some(c@),
                None => self@.task_state_config is None,
            },
    {
        match &self.maybe_task_state_config {
            Some(c) => Some(c),
            None => None,
        }
    }

    /// The states that tasks of this project can be in: its own where it has
    /// any, those of `default_config` where it has none.
    pub fn task_states(&self, default_config: &TaskStateConfig) -> (r: Vec<String>)
        ensures
            lines(r@) == match self@.task_state_config {
                Some(c) => c.states,
                None => default_config@.states,
            },
    {
        match &self.maybe_task_state_config {
            Some(c) => copy_lines(c.states()),
            None => copy_lines(default_config.states()),
        }
    }
}

/// The fields by which projects can be sorted.
#[derive(Debug, Clone, Copy, PartialEq, Eq, Structural)]
pub enum ProjectField {
    Id,
    Name,
    Description,
    Deadline,
}

impl ProjectField {
    /// The field by which projects are sorted where none is named.
    pub fn default() -> (r: Self)
        ensures
            r == ProjectField::Id,
    {
        ProjectField::Id
    }
}

impl Comparator for ProjectField {
    type Type = Project;

    open spec fn relation(&self, a: &Project, b: &Project) -> Relation {
        match self {
            ProjectField::Id => text_relation(a@.id, b@.id),
            ProjectField::Name => text_relation(a@.name, b@.name),
            ProjectField::Description => optional_text_relation(a@.description, b@.description),
            ProjectField::Deadline => optional_moment_relation(a@.deadline, b@.deadline),
        }
    }

    open spec fn named(s: Seq<char>) -> Result<Self, ErrorView> {
        if s == "id"@ {
            Ok(ProjectField::Id)
        } else if s == "name"@ {
            Ok(ProjectField::Name)
        } else if s == "description"@ || s == "desc"@ {
            Ok(ProjectField::Description)
        } else if s == "deadline"@ {
            Ok(ProjectField::Deadline)
        } else {
            Err(ErrorView::UnrecognizedProjectField(s))
        }
    }

    open spec fn name(&self) -> Seq<char> {
        match self {
            ProjectField::Id => "id"@,
            ProjectField::Name => "name"@,
            ProjectField::Description => "description"@,
            ProjectField::Deadline => "deadline"@,
        }
    }

    fn cmp(&self, a: &Project, b: &Project) -> (r: Relation) {
        match self {
            ProjectField::Id => text_order(a.id(), b.id()),
            ProjectField::Name => text_order(a.name(), b.name()),
            ProjectField::Description => optional_text_order(a.description(), b.description()),
            ProjectField::Deadline => optional_moment_order(a.deadline(), b.deadline()),
        }
    }

    fn from_str(s: &str) -> (r: Result<Self, Error>) {
        let v = chars_of(s);
        if spells(&v, "id") {
            Ok(ProjectField::Id)
        } else if spells(&v, "name") {
            Ok(ProjectField::Name)
        } else if spells(&v, "description") || spells(&v, "desc") {
            Ok(ProjectField::Description)
        } else if spells(&v, "deadline") {
            Ok(ProjectField::Deadline)
        } else {
            Err(Error::UnrecognizedProjectField(string_of(&v)))
        }
    }

    fn to_string(&self) -> (r: String) {
        match self {
            ProjectField::Id => owned("id"),
            ProjectField::Name => owned("name"),
            ProjectField::Description => owned("description"),
            ProjectField::Deadline => owned("deadline"),
        }
    }

    proof fn lemma_ranking(&self, a: &Project, b: &Project, c: &Project) {
        lemma_text_mirrored(a@.id, b@.id);
        lemma_text_carried(a@.id, b@.id, c@.id);
        lemma_text_mirrored(a@.name, b@.name);
        lemma_text_carried(a@.name, b@.name, c@.name);
        lemma_optional_text_ranked(a@.description, b@.description, c@.description);
        lemma_optional_moment_ranked(a@.deadline, b@.deadline, c@.deadline);
    }
}

/// How projects are sorted where nothing is asked for: by name, ascending.
pub fn default_project_sort() -> (r: SortSpec<ProjectField>)
    ensures
        r.keys() == seq![(ProjectField::Name, Order::Asc)],
{
    SortSpec::new(ProjectField::Name, Order::Asc)
}

/// The filters on projects.
#[derive(Debug, PartialEq)]
pub enum ProjectFilter {
    /// Every project.
    All,
    /// The projects with one of these identifiers.
    Ids(Vec<String>),
    /// The projects that have a deadline, and one that the filter wants.
    Deadline(TimestampFilter),
    /// The projects that carry at least one of these tags.
    Tags(Vec<String>),
}

impl Clone for ProjectFilter {
    fn clone(&self) -> (r: Self)
        ensures
            match (*self, r) {
                (ProjectFilter::All, ProjectFilter::All) => true,
                (ProjectFilter::Ids(a), ProjectFilter::Ids(b)) => lines(a@) == lines(b@),
                (ProjectFilter::Deadline(a), ProjectFilter::Deadline(b)) => a == b,
                (ProjectFilter::Tags(a), ProjectFilter::Tags(b)) => lines(a@) == lines(b@),
                _ => false,
            },
    {
        match self {
            ProjectFilter::All => ProjectFilter::All,
            ProjectFilter::Ids(ids) => ProjectFilter::Ids(copy_lines(ids)),
            ProjectFilter::Deadline(f) => ProjectFilter::Deadline(*f),
            ProjectFilter::Tags(tags) => ProjectFilter::Tags(copy_lines(tags)),
        }
    }
}

/// What a [`ProjectFilter`] holds.
pub enum ProjectFilterView {
    All,
    Ids(Seq<Seq<char>>),
    Deadline(TimestampFilterView),
    Tags(Seq<Seq<char>>),
}

impl View for ProjectFilter {
    type V = ProjectFilterView;

    open spec fn view(&self) -> ProjectFilterView {
        match self {
            ProjectFilter::All => ProjectFilterView::All,
            ProjectFilter::Ids(ids) => ProjectFilterView::Ids(lines(ids@)),
            ProjectFilter::Deadline(f) => ProjectFilterView::Deadline(f@),
            ProjectFilter::Tags(tags) => ProjectFilterView::Tags(lines(tags@)),
        }
    }
}

/// What the filters of a specification hold, in order.
pub open spec fn project_filters(spec: FilterSpec<ProjectFilter>) -> Seq<ProjectFilterView> {
    spec.filters().map_values(|f: ProjectFilter| f@)
}

/// The filters with one more: in place of a lone filter for everything,
/// else behind the others.
pub open spec fn project_then(filters: Seq<ProjectFilterView>, filter: ProjectFilterView) -> Seq<
    ProjectFilterView,
> {
    if filters.len() == 1 && filters[0] is All {
        seq![filter]
    } else {
        filters.push(filter)
    }
}

/// The specification that asks for `filter` as well.
pub fn then_project(spec: FilterSpec<ProjectFilter>, filter: ProjectFilter) -> (r: FilterSpec<
    ProjectFilter,
>)
    ensures
        project_filters(r) == project_then(project_filters(spec), filter@),
        r.filters().len() >= 1,
{
    let ghost before = spec.filters();
    let r = spec.and_then(filter);
    proof {
        if before.len() == 1 {
            assert(before[0]@ is All <==> before[0] is All);
            assert(project_filters(spec)[0] == before[0]@);
        }
        assert(project_filters(r) =~= project_then(project_filters(spec), filter@));
    }
    r
}

impl ProjectFilter {
    /// The filter that is used where none is given: every project.
    pub fn default() -> (r: Self)
        ensures
            r is All,
    {
        ProjectFilter::All
    }
}

impl Filter for ProjectFilter {
    type Type = Project;

    open spec fn accepts(&self, project: &Project, now: Timestamp) -> bool {
        match self {
            ProjectFilter::All => true,
            ProjectFilter::Ids(ids) => lines(ids@).contains(project@.id),
            ProjectFilter::Deadline(f) => match project@.deadline {
                Some(deadline) => f.accepts(now, deadline),
                None => false,
            },
            ProjectFilter::Tags(tags) => share_one(project@.tags, lines(tags@)),
        }
    }

    open spec fn usable_at(&self, now: Timestamp) -> bool {
        match self {
            ProjectFilter::Deadline(f) => f.usable_at(now),
            _ => true,
        }
    }

    open spec fn is_all(&self) -> bool {
        self is All
    }

    fn matches(&self, project: &Project, now: Timestamp) -> (r: bool) {
        match self {
            ProjectFilter::All => true,
            ProjectFilter::Ids(ids) => holds(ids, project.id()),
            ProjectFilter::Deadline(f) => match project.deadline() {
                Some(deadline) => f.matches(now, deadline),
                None => false,
            },
            ProjectFilter::Tags(tags) => tags_intersect(project.tags(), tags),
        }
    }

    fn is_default(&self) -> (r: bool) {
        match self {
            ProjectFilter::All => true,
            _ => false,
        }
    }

    proof fn lemma_all_accepts(&self, project: &Project, now: Timestamp) {
    }
}

} // verus!
