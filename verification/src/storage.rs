//! The store: where each object lives under the storage root, which numbers
//! new objects get, and what each operation makes of what is found on disk.
//!
//! Reading and writing are the caller's part. The store is told what was
//! found (whether a directory exists, the names in it, the documents read) and
//! says what follows: the objects wanted, the fault, or the path to write to.
//!
//! ```text
//! <root>/state.json
//! <root>/config.json
//! <root>/<project>/project.json
//! <root>/<project>/logs/00001.json
//! <root>/<project>/tasks/0001/task.json
//! <root>/<project>/tasks/0001/00001.json
//! ```

use vstd::prelude::*;
use crate::config::{Config, State};
use crate::error::{Error, ErrorView};
use crate::filter::{Filter, FilterSpec};
use crate::numbers::{
    decimal_text, lemma_decimal_text, lemma_padded_roundtrip, padded, padded_decimal,
    parse_unsigned, parsed_unsigned,
};
use crate::project::{Project, ProjectFilter, ProjectView};
use crate::strings::{slug_of, slugify};
use crate::task::{Task, TaskFilter, TaskView};
use crate::text::{
    chars_of, is_digit, lines, owned, push_str, slice_of, string_of,
};
use crate::timestamp::Timestamp;
use crate::worklog::{Log, LogFilter, LogView};

verus! {

/// The number of the first task of a project.
pub const STARTING_TASK_ID: u32 = 1;

/// The number of the first log of a project or task.
pub const STARTING_LOG_ID: u32 = 1;

/// The path of `name` under the directory `base`.
pub open spec fn path_join(base: Seq<char>, name: Seq<char>) -> Seq<char> {
    if base.len() == 0 {
        name
    } else if base.last() == '/' {
        base + name
    } else {
        base.push('/') + name
    }
}

/// The name of a task's directory: its number in at least four digits.
pub open spec fn task_dir_name(id: u32) -> Seq<char> {
    padded_decimal(id as nat, 4)
}

/// The name of a log's file: its number in at least five digits, and `.json`.
pub open spec fn log_file_name(id: u32) -> Seq<char> {
    padded_decimal(id as nat, 5) + ".json"@
}

/// The index of the last `c` in `s`, or -1 where there is none.
pub open spec fn last_index_of(s: Seq<char>, c: char) -> int
    decreases s.len(),
{
    if s.len() == 0 {
        -1
    } else if s.last() == c {
        s.len() - 1
    } else {
        last_index_of(s.drop_last(), c)
    }
}

/// The last component of a path: what follows its last `/`.
pub open spec fn file_name(path: Seq<char>) -> Seq<char> {
    path.skip(last_index_of(path, '/') + 1)
}

/// The last component of a path without its extension: what comes before its
/// last `.`, unless the name has none or begins with its only one.
pub open spec fn file_stem(path: Seq<char>) -> Seq<char> {
    let name = file_name(path);
    let dot = last_index_of(name, '.');
    if dot <= 0 {
        name
    } else {
        name.take(dot)
    }
}

/// The number that the name of a task's directory stands for.
pub open spec fn task_id_of(path: Seq<char>) -> Result<u32, ErrorView> {
    let name = file_name(path);
    if name.len() == 0 {
        Err(ErrorView::InvalidPath(path))
    } else {
        match parsed_unsigned(name, u32::MAX as nat) {
            Ok(n) => Ok(n as u32),
            Err(e) => Err(ErrorView::InvalidTaskNumber(path, e)),
        }
    }
}

/// The number that the name of a log's file stands for.
pub open spec fn log_id_of(path: Seq<char>) -> Result<u32, ErrorView> {
    let name = file_name(path);
    if name.len() == 0 {
        Err(ErrorView::InvalidPath(path))
    } else {
        match parsed_unsigned(file_stem(path), u32::MAX as nat) {
            Ok(n) => Ok(n as u32),
            Err(e) => Err(ErrorView::InvalidLogNumber(path, e)),
        }
    }
}

/// `last_index_of` finds an index of `c` behind which no `c` follows.
pub proof fn lemma_last_index_of(s: Seq<char>, c: char, k: int)
    requires
        -1 <= k < s.len(),
        k >= 0 ==> s[k] == c,
        forall|i: int| k < i < s.len() ==> s[i] != c,
    ensures
        last_index_of(s, c) == k,
    decreases s.len(),
{
    if s.len() > 0 && k < s.len() - 1 {
        lemma_last_index_of(s.drop_last(), c, k);
    }
}

/// Finds the last `c` in `v[..end]`.
fn find_last(v: &Vec<char>, end: usize, c: char) -> (r: Option<usize>)
    requires
        end <= v.len(),
    ensures
        match r {
            Some(k) => k < end && last_index_of(v@.take(end as int), c) == k,
            None => last_index_of(v@.take(end as int), c) == -1,
        },
{
    let mut i: usize = end;
    while i > 0
        invariant
            i <= end <= v.len(),
            forall|k: int| i <= k < end ==> v@[k] != c,
        decreases i,
    {
        if v[i - 1] == c {
            proof {
                lemma_last_index_of(v@.take(end as int), c, i - 1);
            }
            return Some(i - 1);
        }
        i = i - 1;
    }
    proof {
        lemma_last_index_of(v@.take(end as int), c, -1);
    }
    None
}

/// The characters of the last component of a path.
fn name_of(v: &Vec<char>) -> (r: Vec<char>)
    ensures
        r@ == file_name(v@),
{
    assert(v@.take(v.len() as int) == v@);
    let from = match find_last(v, v.len(), '/') {
        Some(k) => k + 1,
        None => 0,
    };
    slice_of(v, from, v.len())
}

/// Reads the number of a task from the path of its directory.
pub fn task_id_from_path(path: &str) -> (r: Result<u32, Error>)
    ensures
        match r {
            Ok(id) => task_id_of(path@) == Ok::<u32, ErrorView>(id),
            Err(e) => task_id_of(path@) == Err::<u32, ErrorView>(e@),
        },
{
    let v = chars_of(path);
    let name = name_of(&v);
    if name.len() == 0 {
        return Err(Error::InvalidPath(string_of(&v)));
    }
    match parse_unsigned(&name, 0xffff_ffff) {
        Ok(n) => Ok(n as u32),
        Err(e) => Err(Error::InvalidTaskNumber(string_of(&v), e)),
    }
}

/// Reads the number of a log from the path of its file.
pub fn log_id_from_path(path: &str) -> (r: Result<u32, Error>)
    ensures
        match r {
            Ok(id) => log_id_of(path@) == Ok::<u32, ErrorView>(id),
            Err(e) => log_id_of(path@) == Err::<u32, ErrorView>(e@),
        },
{
    let v = chars_of(path);
    let name = name_of(&v);
    if name.len() == 0 {
        return Err(Error::InvalidPath(string_of(&v)));
    }
    assert(name@.take(name.len() as int) == name@);
    let stem = match find_last(&name, name.len(), '.') {
        Some(k) => if k == 0 {
            name
        } else {
            let s = slice_of(&name, 0, k);
            assert(name@.subrange(0, k as int) == name@.take(k as int));
            s
        },
        None => name,
    };
    match parse_unsigned(&stem, 0xffff_ffff) {
        Ok(n) => Ok(n as u32),
        Err(e) => Err(Error::InvalidLogNumber(string_of(&v), e)),
    }
}

/// What a path under a project stands for: the directory of a task, or the
/// file of a log.
#[derive(Debug, Clone, Copy, PartialEq, Eq, Structural)]
pub enum Numbered {
    /// The directory of a task, named by the task's number.
    Task,
    /// The file of a log, named by the log's number and `.json`.
    Log,
}

/// The number that a path stands for as a task directory or as a log file.
pub open spec fn id_of(path: Seq<char>, kind: Numbered) -> Result<u32, ErrorView> {
    match kind {
        Numbered::Task => task_id_of(path),
        Numbered::Log => log_id_of(path),
    }
}

/// The numbers that the paths stand for, in order; paths that stand for none
/// are passed over.
pub open spec fn ids_of(paths: Seq<Seq<char>>, kind: Numbered) -> Seq<u32>
    decreases paths.len(),
{
    if paths.len() == 0 {
        Seq::empty()
    } else {
        match id_of(paths.last(), kind) {
            Ok(id) => ids_of(paths.drop_last(), kind).push(id),
            Err(_) => ids_of(paths.drop_last(), kind),
        }
    }
}

/// The names that the paths end in, in order; paths that end in no name are
/// passed over.
pub open spec fn names_of(paths: Seq<Seq<char>>) -> Seq<Seq<char>>
    decreases paths.len(),
{
    if paths.len() == 0 {
        Seq::empty()
    } else if file_name(paths.last()).len() == 0 {
        names_of(paths.drop_last())
    } else {
        names_of(paths.drop_last()).push(file_name(paths.last()))
    }
}

/// The identifiers that the directories under the storage root stand for:
/// their names. Whether a directory holds a project shows only in whether
/// it holds the document of one.
pub fn project_ids_in(paths: &Vec<String>) -> (r: Vec<String>)
    ensures
        lines(r@) == names_of(lines(paths@)),
{
    let ghost all = lines(paths@);
    let mut ids: Vec<String> = Vec::new();
    let mut i: usize = 0;
    assert(all.take(0) == Seq::<Seq<char>>::empty());
    assert(lines(ids@) == Seq::<Seq<char>>::empty());
    while i < paths.len()
        invariant
            i <= paths.len(),
            all == lines(paths@),
            lines(ids@) == names_of(all.take(i as int)),
        decreases paths.len() - i,
    {
        let ghost next = all.take(i + 1);
        assert(next.drop_last() == all.take(i as int));
        assert(next.last() == paths@[i as int]@);
        let name = name_of(&chars_of(paths[i].as_str()));
        if name.len() > 0 {
            let ghost before = ids@;
            ids.push(string_of(&name));
            assert(lines(ids@) == lines(before).push(name@));
        }
        i = i + 1;
    }
    assert(all.take(paths.len() as int) == all);
    ids
}

/// The numbers among the paths of one kind, in the order of the paths.
/// Names that are no numbers are passed over, not refused.
pub fn ids_in(paths: &Vec<String>, kind: Numbered) -> (r: Vec<u32>)
    ensures
        r@ == ids_of(lines(paths@), kind),
{
    let ghost all = lines(paths@);
    let mut ids: Vec<u32> = Vec::new();
    let mut i: usize = 0;
    assert(all.take(0) == Seq::<Seq<char>>::empty());
    while i < paths.len()
        invariant
            i <= paths.len(),
            all == lines(paths@),
            ids@ == ids_of(all.take(i as int), kind),
        decreases paths.len() - i,
    {
        let ghost next = all.take(i + 1);
        assert(next.drop_last() == all.take(i as int));
        assert(next.last() == paths@[i as int]@);
        let read = match kind {
            Numbered::Task => task_id_from_path(paths[i].as_str()),
            Numbered::Log => log_id_from_path(paths[i].as_str()),
        };
        match read {
            Ok(id) => {
                ids.push(id);
            },
            Err(_) => {},
        }
        i = i + 1;
    }
    assert(all.take(paths.len() as int) == all);
    ids
}

/// The task numbers among the directories under a project's `tasks`.
pub fn task_ids_in(paths: &Vec<String>) -> (r: Vec<u32>)
    ensures
        r@ == ids_of(lines(paths@), Numbered::Task),
{
    ids_in(paths, Numbered::Task)
}

/// The log numbers among the files of a log folder.
pub fn log_ids_in(paths: &Vec<String>) -> (r: Vec<u32>)
    ensures
        r@ == ids_of(lines(paths@), Numbered::Log),
{
    ids_in(paths, Numbered::Log)
}

/// The largest of the numbers; 0 where there are none.
pub open spec fn largest(ids: Seq<u32>) -> int
    decreases ids.len(),
{
    if ids.len() == 0 {
        0
    } else {
        let rest = largest(ids.drop_last());
        if ids.last() > rest {
            ids.last() as int
        } else {
            rest
        }
    }
}

/// The number for a new object beside objects with these numbers: one more
/// than the largest, or `first` where there are none. Numbers that were
/// given out and are no longer there play no part.
pub open spec fn next_after(ids: Seq<u32>, first: u32) -> int {
    if ids.len() == 0 {
        first as int
    } else {
        largest(ids) + 1
    }
}

/// The largest number is one of the numbers, and none is larger.
pub proof fn lemma_largest(ids: Seq<u32>)
    ensures
        forall|k: int| 0 <= k < ids.len() ==> ids[k] <= largest(ids),
        ids.len() > 0 ==> ids.contains(largest(ids) as u32),
        0 <= largest(ids) <= u32::MAX,
    decreases ids.len(),
{
    if ids.len() > 0 {
        let rest = ids.drop_last();
        lemma_largest(rest);
        assert forall|k: int| 0 <= k < ids.len() implies ids[k] <= largest(ids) by {
            if k < ids.len() - 1 {
                assert(rest[k] == ids[k]);
            }
        }
        if ids.last() > largest(rest) {
            assert(ids[ids.len() - 1] == ids.last());
        } else if rest.len() > 0 {
            let w = choose|w: int| 0 <= w < rest.len() && rest[w] == largest(rest) as u32;
            assert(ids[w] == rest[w]);
        } else {
            assert(ids[ids.len() - 1] == ids.last());
        }
    }
}

/// The number for a new object is larger than every number beside it, and
/// so the number of none of them.
pub proof fn lemma_next_is_fresh(ids: Seq<u32>, first: u32)
    ensures
        forall|k: int| 0 <= k < ids.len() ==> ids[k] < next_after(ids, first),
        next_after(ids, first) <= u32::MAX ==> !ids.contains(next_after(ids, first) as u32),
{
    lemma_largest(ids);
    if next_after(ids, first) <= u32::MAX && ids.contains(next_after(ids, first) as u32) {
        let k = choose|k: int| 0 <= k < ids.len() && ids[k] == next_after(ids, first) as u32;
        assert(ids[k] < next_after(ids, first));
    }
}

/// The number for a new object beside objects with these numbers.
pub fn next_id(ids: &Vec<u32>, first: u32) -> (r: u32)
    requires
        ids_have_room(ids@),
    ensures
        r == next_after(ids@, first),
{
    if ids.len() == 0 {
        return first;
    }
    let mut max: u32 = 0;
    let mut i: usize = 0;
    assert(ids@.take(0) == Seq::<u32>::empty());
    while i < ids.len()
        invariant
            i <= ids.len(),
            max == largest(ids@.take(i as int)),
            max < u32::MAX,
            ids_have_room(ids@),
        decreases ids.len() - i,
    {
        let ghost next = ids@.take(i + 1);
        assert(next.drop_last() == ids@.take(i as int));
        assert(next.last() == ids@[i as int]);
        if ids[i] > max {
            max = ids[i];
        }
        i = i + 1;
    }
    assert(ids@.take(ids.len() as int) == ids@);
    max + 1
}

/// The items that the specification wants, in their order.
pub open spec fn kept<F: Filter>(items: Seq<F::Type>, spec: &FilterSpec<F>, now: Timestamp) -> Seq<
    F::Type,
>
    decreases items.len(),
{
    if items.len() == 0 {
        Seq::empty()
    } else {
        let head = kept(items.drop_last(), spec, now);
        if spec.accepts(&items.last(), now) {
            head.push(items.last())
        } else {
            head
        }
    }
}

/// Keeps the items that the specification wants, in their order.
pub fn keep<F: Filter>(items: Vec<F::Type>, spec: &FilterSpec<F>, now: Timestamp) -> (r: Vec<
    F::Type,
>)
    requires
        spec.usable_at(now),
    ensures
        r@ == kept(items@, spec, now),
{
    let ghost given = items@;
    let mut v = items;
    let mut i: usize = 0;
    let ghost mut seen: int = 0;
    assert(given.take(0) == Seq::<F::Type>::empty());
    assert(v@.take(0) == Seq::<F::Type>::empty());
    assert(v@.skip(0) == v@);
    assert(given.skip(0) == given);
    while i < v.len()
        invariant
            i <= v.len(),
            0 <= seen <= given.len(),
            v.len() - i == given.len() - seen,
            v@.take(i as int) == kept(given.take(seen), spec, now),
            v@.skip(i as int) == given.skip(seen),
            spec.usable_at(now),
        decreases v.len() - i,
    {
        let ghost next = given.take(seen + 1);
        let ghost before = v@;
        assert(v@[i as int] == v@.skip(i as int)[0]);
        assert(given[seen] == given.skip(seen)[0]);
        assert(next.drop_last() == given.take(seen));
        assert(next.last() == given[seen]);
        if spec.matches(&v[i], now) {
            assert(v@.take(i + 1) == v@.take(i as int).push(v@[i as int]));
            assert(v@.skip(i + 1) == given.skip(seen + 1)) by {
                assert(v@.skip(i + 1) == v@.skip(i as int).drop_first());
                assert(given.skip(seen + 1) == given.skip(seen).drop_first());
            }
            i = i + 1;
        } else {
            let _ = v.remove(i);
            assert(v@.take(i as int) == before.take(i as int));
            assert(v@.skip(i as int) == given.skip(seen + 1)) by {
                assert(v@.skip(i as int) == before.skip(i as int).drop_first());
                assert(given.skip(seen + 1) == given.skip(seen).drop_first());
            }
        }
        proof {
            seen = seen + 1;
        }
    }
    assert(v@.take(v.len() as int) == v@);
    assert(given.take(given.len() as int) == given);
    v
}

/// The items of all the lists, one list after the other.
pub open spec fn chained<T>(lists: Seq<Vec<T>>) -> Seq<T>
    decreases lists.len(),
{
    if lists.len() == 0 {
        Seq::empty()
    } else {
        lists[0]@ + chained(lists.drop_first())
    }
}

/// Puts the items of all the lists into one list, one list after the other.
pub fn chain<T>(lists: Vec<Vec<T>>) -> (r: Vec<T>)
    ensures
        r@ == chained(lists@),
{
    let ghost given = lists@;
    let mut rest = lists;
    let mut out: Vec<T> = Vec::new();
    assert(out@ + chained(rest@) == chained(given));
    while rest.len() > 0
        invariant
            out@ + chained(rest@) == chained(given),
        decreases rest.len(),
    {
        let ghost before = rest@;
        let ghost had = out@;
        let mut first = rest.remove(0);
        assert(rest@ == before.drop_first());
        out.append(&mut first);
        assert(out@ + chained(rest@) == had + (before[0]@ + chained(before.drop_first())));
    }
    assert(out@ + Seq::<T>::empty() == out@);
    out
}

/// A store under a root directory.
#[derive(Debug)]
pub struct Store {
    path: String,
}

impl Store {
    /// The root directory.
    pub closed spec fn root(&self) -> Seq<char> {
        self.path@
    }

    /// The store under the root directory `path`.
    pub fn new(path: &str) -> (r: Self)
        ensures
            r.root() == path@,
    {
        Store { path: owned(path) }
    }

    /// The root directory.
    pub fn path(&self) -> (r: &str)
        ensures
            r@ == self.root(),
    {
        self.path.as_str()
    }

    /// Where the record of the tracked log lives.
    pub fn state_path(&self) -> (r: String)
        ensures
            r@ == path_join(self.root(), "state.json"@),
    {
        join(self.path.as_str(), "state.json")
    }

    /// Where the configuration lives.
    pub fn config_path(&self) -> (r: String)
        ensures
            r@ == path_join(self.root(), "config.json"@),
    {
        join(self.path.as_str(), "config.json")
    }

    /// The directory of a project.
    pub fn project_path(&self, id: &str) -> (r: String)
        ensures
            r@ == path_join(self.root(), id@),
    {
        join(self.path.as_str(), id)
    }

    /// Where the document of a project lives.
    pub fn project_meta_path(&self, id: &str) -> (r: String)
        ensures
            r@ == path_join(path_join(self.root(), id@), "project.json"@),
    {
        join(self.project_path(id).as_str(), "project.json")
    }

    /// The directory of the tasks of a project.
    pub fn tasks_path(&self, project_id: &str) -> (r: String)
        ensures
            r@ == path_join(path_join(self.root(), project_id@), "tasks"@),
    {
        join(self.project_path(project_id).as_str(), "tasks")
    }

    /// The directory of a task.
    pub fn task_path(&self, project_id: &str, task_id: u32) -> (r: String)
        ensures
            r@ == path_join(
                path_join(path_join(self.root(), project_id@), "tasks"@),
                task_dir_name(task_id),
            ),
    {
        let name = string_of(&padded(task_id as u64, 4));
        join(self.tasks_path(project_id).as_str(), name.as_str())
    }

    /// Where the document of a task lives.
    pub fn task_meta_path(&self, project_id: &str, task_id: u32) -> (r: String)
        ensures
            r@ == path_join(
                path_join(
                    path_join(path_join(self.root(), project_id@), "tasks"@),
                    task_dir_name(task_id),
                ),
                "task.json"@,
            ),
    {
        join(self.task_path(project_id, task_id).as_str(), "task.json")
    }

    /// The directory of the logs of a task, or of the logs of a project that
    /// belong to no task.
    pub fn logs_path(&self, project_id: &str, maybe_task_id: Option<u32>) -> (r: String)
        ensures
            r@ == match maybe_task_id {
                Some(task_id) => path_join(
                    path_join(path_join(self.root(), project_id@), "tasks"@),
                    task_dir_name(task_id),
                ),
                None => path_join(path_join(self.root(), project_id@), "logs"@),
            },
    {
        match maybe_task_id {
            Some(task_id) => self.task_path(project_id, task_id),
            None => join(self.project_path(project_id).as_str(), "logs"),
        }
    }

    /// Where the document of a log lives.
    pub fn log_path(&self, project_id: &str, maybe_task_id: Option<u32>, id: u32) -> (r: String)
        ensures
            r@ == path_join(
                match maybe_task_id {
                    Some(task_id) => path_join(
                        path_join(path_join(self.root(), project_id@), "tasks"@),
                        task_dir_name(task_id),
                    ),
                    None => path_join(path_join(self.root(), project_id@), "logs"@),
                },
                log_file_name(id),
            ),
    {
        let mut name = padded(id as u64, 5);
        push_str(&mut name, ".json");
        join(self.logs_path(project_id, maybe_task_id).as_str(), string_of(&name).as_str())
    }
}

/// The path of `name` under the directory `base`.
pub fn join(base: &str, name: &str) -> (r: String)
    ensures
        r@ == path_join(base@, name@),
{
    let mut out = chars_of(base);
    if out.len() == 0 {
        return owned(name);
    }
    if out[out.len() - 1] != '/' {
        out.push('/');
    }
    push_str(&mut out, name);
    string_of(&out)
}

/// Whether every number leaves room for a next.
pub open spec fn ids_have_room(ids: Seq<u32>) -> bool {
    forall|k: int| 0 <= k < ids.len() ==> #[trigger] ids[k] < u32::MAX
}

/// The task as it is written: a task without a project is refused; the
/// state is the task's own where the configuration allows it, the initial
/// one where the task has none; the number is the task's own, or the next
/// free one beside `ids`.
pub open spec fn task_to_save(
    task: TaskView,
    states: crate::config::TaskStateConfigView,
    ids: Seq<u32>,
) -> Result<TaskView, ErrorView> {
    if task.project_id is None {
        Err(ErrorView::TaskMissingProjectId(task))
    } else {
        let state = match task.state {
            Some(s) => s,
            None => states.initial,
        };
        if task.state is Some && !states.states.contains(state) {
            Err(ErrorView::InvalidTaskState(state, states.states))
        } else {
            Ok(
                TaskView {
                    id: Some(
                        match task.id {
                            Some(id) => id,
                            None => next_after(ids, STARTING_TASK_ID) as u32,
                        },
                    ),
                    state: Some(state),
                    ..task
                },
            )
        }
    }
}

/// The log as it is written: a log without a project is refused, then one
/// whose project is not there, then one whose task is not there; the number
/// is the log's own, or the next free one beside `ids`.
pub open spec fn log_to_save(log: LogView, project_exists: bool, task_exists: bool, ids: Seq<u32>) -> Result<
    LogView,
    ErrorView,
> {
    match log.project_id {
        None => Err(ErrorView::LogMissingProjectId(log)),
        Some(project_id) => if !project_exists {
            Err(ErrorView::ProjectNotFound(project_id))
        } else if log.task_id is Some && !task_exists {
            Err(ErrorView::TaskNotFound(project_id, log.task_id.unwrap()))
        } else {
            Ok(
                LogView {
                    id: Some(
                        match log.id {
                            Some(id) => id,
                            None => next_after(ids, STARTING_LOG_ID) as u32,
                        },
                    ),
                    ..log
                },
            )
        },
    }
}

/// What the document of a project holds of it: everything but the
/// identifier, which follows from the name.
pub open spec fn project_document(project: ProjectView) -> ProjectView {
    ProjectView { id: Seq::empty(), ..project }
}

/// A project read from its document: the identifier is the slug of the name.
pub open spec fn project_read(document: ProjectView) -> ProjectView {
    ProjectView { id: slug_of(document.name), ..document }
}

/// What the document of a task holds of it: everything but project and
/// number, which follow from where the document lies.
pub open spec fn task_document(task: TaskView) -> TaskView {
    TaskView { project_id: None, id: None, ..task }
}

/// A task read from its document at the place of the task `id` of `project_id`.
pub open spec fn task_read(document: TaskView, project_id: Seq<char>, id: u32) -> TaskView {
    TaskView { project_id: Some(project_id), id: Some(id), ..document }
}

/// What the document of a log holds of it: everything but project, task and
/// number, which follow from where the document lies, and the details of the
/// task, which lie in the task's own document.
pub open spec fn log_document(log: LogView) -> LogView {
    LogView { project_id: None, task_id: None, id: None, task: None, ..log }
}

/// A log read from its document at the place of the log `id` of `project_id`
/// and, where it belongs to one, of the task.
pub open spec fn log_read(
    document: LogView,
    project_id: Seq<char>,
    maybe_task_id: Option<u32>,
    id: u32,
) -> LogView {
    LogView { id: Some(id), project_id: Some(project_id), task_id: maybe_task_id, ..document }
}

/// Writing and reading gives the object back: what a document leaves out
/// is put back when the document is read where it was written. This holds of
/// a project whose identifier is the slug of its name, of a task or log that
/// knows its place, and of a log that carries no details of its task.
pub proof fn lemma_documents_roundtrip(project: ProjectView, task: TaskView, log: LogView)
    ensures
        project.id == slug_of(project.name) ==> project_read(project_document(project))
            == project,
        task.project_id is Some && task.id is Some ==> task_read(
            task_document(task),
            task.project_id.unwrap(),
            task.id.unwrap(),
        ) == task,
        log.project_id is Some && log.id is Some && log.task is None ==> log_read(
            log_document(log),
            log.project_id.unwrap(),
            log.task_id,
            log.id.unwrap(),
        ) == log,
{
}

/// The view of a result.
pub open spec fn task_result(r: Result<Task, Error>) -> Result<TaskView, ErrorView> {
    match r {
        Ok(t) => Ok(t@),
        Err(e) => Err(e@),
    }
}

/// The view of a result.
pub open spec fn project_result(r: Result<Project, Error>) -> Result<ProjectView, ErrorView> {
    match r {
        Ok(p) => Ok(p@),
        Err(e) => Err(e@),
    }
}

impl Store {
    /// The record of the tracked log: the one found, or, where none was
    /// found, a fresh one that has to be written. The flag says whether to
    /// write.
    pub fn state(&self, stored: Option<State>) -> (r: (State, bool))
        ensures
            match stored {
                Some(s) => r.0 == s && !r.1,
                None => r.0.active() is None && r.1,
            },
    {
        match stored {
            Some(s) => (s, false),
            None => (State::default(), true),
        }
    }

    /// The configuration: the one found, or, where none was found, the
    /// default one, which has to be written. The flag says whether to write.
    pub fn config(&self, stored: Option<Config>) -> (r: (Config, bool))
        ensures
            match stored {
                Some(c) => r.0 == c && !r.1,
                None => r.0.states_view() == Config::default_view() && r.1,
            },
    {
        match stored {
            Some(c) => (c, false),
            None => (Config::default(), true),
        }
    }

    /// Where the record of the tracked log is written.
    pub fn save_state(&self, state: &State) -> (r: String)
        ensures
            r@ == path_join(self.root(), "state.json"@),
    {
        self.state_path()
    }

    /// Where the configuration is written.
    pub fn save_config(&self, config: &Config) -> (r: String)
        ensures
            r@ == path_join(self.root(), "config.json"@),
    {
        self.config_path()
    }

    /// Where to look for the document of the project that `id` names: under
    /// the slug of `id`.
    pub fn project_lookup_path(&self, id: &str) -> (r: String)
        ensures
            r@ == path_join(path_join(self.root(), slug_of(id@)), "project.json"@),
    {
        let slug = slugify(id);
        self.project_meta_path(slug.as_str())
    }

    /// The project that `id` names, given the document found for it: the
    /// document with its identifier set from its name, or the fault where none
    /// was found.
    pub fn project(&self, id: &str, stored: Option<Project>) -> (r: Result<Project, Error>)
        ensures
            project_result(r) == match stored {
                Some(p) => Ok::<ProjectView, ErrorView>(project_read(p@)),
                None => Err::<ProjectView, ErrorView>(ErrorView::ProjectNotFound(id@)),
            },
    {
        match stored {
            Some(p) => {
                let name = owned(p.name());
                Ok(p.with_name(name.as_str()))
            },
            None => Err(Error::ProjectNotFound(owned(id))),
        }
    }

    /// Of the projects found, those that the filter wants.
    pub fn projects(
        &self,
        found: Vec<Project>,
        filter_spec: &FilterSpec<ProjectFilter>,
        now: Timestamp,
    ) -> (r: Vec<Project>)
        requires
            filter_spec.usable_at(now),
        ensures
            r@ == kept(found@, filter_spec, now),
    {
        keep(found, filter_spec, now)
    }

    /// Where the document of `project` is written.
    pub fn save_project(&self, project: &Project) -> (r: String)
        ensures
            r@ == path_join(path_join(self.root(), project@.id), "project.json"@),
    {
        self.project_meta_path(project.id())
    }

    /// The directory to remove in order to remove a project, or the fault
    /// where the project has no directory.
    pub fn remove_project(&self, id: &str, exists: bool) -> (r: Result<String, Error>)
        ensures
            match r {
                Ok(path) => exists && path@ == path_join(self.root(), id@),
                Err(e) => !exists && e@ == ErrorView::ProjectNotFound(id@),
            },
    {
        if exists {
            Ok(self.project_path(id))
        } else {
            Err(Error::ProjectNotFound(owned(id)))
        }
    }

    /// The directory to move, and where to, in order to give the project
    /// `old_id` the identifier of `project`. Nothing is to be moved where the
    /// old directory is not there, or the new one already is.
    pub fn rename_project(
        &self,
        old_id: &str,
        project: &Project,
        old_exists: bool,
        new_exists: bool,
    ) -> (r: Result<(String, String), Error>)
        ensures
            match r {
                Ok(paths) => old_exists && !new_exists && paths.0@ == path_join(
                    self.root(),
                    old_id@,
                ) && paths.1@ == path_join(self.root(), project@.id),
                Err(e) => if !old_exists {
                    e@ == ErrorView::ProjectNotFound(old_id@)
                } else {
                    new_exists && e@ == ErrorView::ProjectAlreadyExists(project@.id)
                },
            },
    {
        if !old_exists {
            return Err(Error::ProjectNotFound(owned(old_id)));
        }
        if new_exists {
            return Err(Error::ProjectAlreadyExists(owned(project.id())));
        }
        Ok((self.project_path(old_id), self.project_path(project.id())))
    }

    /// The projects whose tasks are to be read, in order: those that passed
    /// the filter on projects, and no others.
    pub fn task_folders(&self, projects: &Vec<Project>) -> (r: Vec<String>)
        ensures
            r.len() == projects.len(),
            forall|k: int| 0 <= k < projects.len() ==> (#[trigger] r@[k])@ == projects@[k]@.id,
    {
        let mut out: Vec<String> = Vec::new();
        let mut i: usize = 0;
        while i < projects.len()
            invariant
                i <= projects.len(),
                out.len() == i,
                forall|k: int| 0 <= k < i ==> (#[trigger] out@[k])@ == projects@[k]@.id,
            decreases projects.len() - i,
        {
            out.push(owned(projects[i].id()));
            i = i + 1;
        }
        out
    }

    /// The folders to read logs from, in the order in which their logs are
    /// listed: for each project the folder of its own logs, then for each
    /// task its folder. Each is given as project and, for a task, number.
    pub fn log_folders(&self, projects: &Vec<Project>, tasks: &Vec<Task>) -> (r: Vec<
        (String, Option<u32>),
    >)
        requires
            forall|k: int|
                0 <= k < tasks.len() ==> (#[trigger] tasks@[k])@.project_id is Some
                    && tasks@[k]@.id is Some,
        ensures
            r.len() == projects.len() + tasks.len(),
            forall|k: int|
                0 <= k < projects.len() ==> (#[trigger] r@[k]).0@ == projects@[k]@.id
                    && r@[k].1 is None,
            forall|k: int|
                0 <= k < tasks.len() ==> Some((#[trigger] r@[projects.len() + k]).0@)
                    == tasks@[k]@.project_id && r@[projects.len() + k].1 == tasks@[k]@.id,
    {
        let mut out: Vec<(String, Option<u32>)> = Vec::new();
        let mut i: usize = 0;
        while i < projects.len()
            invariant
                i <= projects.len(),
                out.len() == i,
                forall|k: int|
                    0 <= k < i ==> (#[trigger] out@[k]).0@ == projects@[k]@.id && out@[k].1 is None,
            decreases projects.len() - i,
        {
            out.push((owned(projects[i].id()), None));
            i = i + 1;
        }
        let mut j: usize = 0;
        while j < tasks.len()
            invariant
                j <= tasks.len(),
                out.len() == projects.len() + j,
                forall|k: int|
                    0 <= k < tasks.len() ==> (#[trigger] tasks@[k])@.project_id is Some
                        && tasks@[k]@.id is Some,
                forall|k: int|
                    0 <= k < projects.len() ==> (#[trigger] out@[k]).0@ == projects@[k]@.id
                        && out@[k].1 is None,
                forall|k: int|
                    0 <= k < j ==> Some((#[trigger] out@[projects.len() + k]).0@)
                        == tasks@[k]@.project_id && out@[projects.len() + k].1 == tasks@[k]@.id,
            decreases tasks.len() - j,
        {
            assert(tasks@[j as int]@.project_id is Some);
            match tasks[j].project_id() {
                Some(project_id) => {
                    out.push((owned(project_id), tasks[j].id()));
                },
                None => {},
            }
            j = j + 1;
        }
        out
    }

    /// The tasks of several projects as one list, project after project.
    pub fn tasks(&self, per_project: Vec<Vec<Task>>) -> (r: Vec<Task>)
        ensures
            r@ == chained(per_project@),
    {
        chain(per_project)
    }

    /// Of the tasks found in a project, those that the filter wants.
    pub fn project_tasks(
        &self,
        found: Vec<Task>,
        task_filter: &FilterSpec<TaskFilter>,
        now: Timestamp,
    ) -> (r: Vec<Task>)
        requires
            task_filter.usable_at(now),
        ensures
            r@ == kept(found@, task_filter, now),
    {
        keep(found, task_filter, now)
    }

    /// The task with this number in this project, given the document found
    /// for it: the document with project and number set, or the fault where
    /// none was found.
    pub fn task(&self, project_id: &str, task_id: u32, stored: Option<Task>) -> (r: Result<
        Task,
        Error,
    >)
        ensures
            task_result(r) == match stored {
                Some(t) => Ok::<TaskView, ErrorView>(task_read(t@, project_id@, task_id)),
                None => Err::<TaskView, ErrorView>(ErrorView::TaskNotFound(project_id@, task_id)),
            },
    {
        match stored {
            Some(t) => Ok(t.with_project_id(project_id).with_id(task_id)),
            None => Err(Error::TaskNotFound(owned(project_id), task_id)),
        }
    }

    /// The number for a new task beside the tasks with these numbers.
    pub fn next_task_id(&self, sibling_ids: &Vec<u32>) -> (r: u32)
        requires
            ids_have_room(sibling_ids@),
        ensures
            r == next_after(sibling_ids@, STARTING_TASK_ID),
    {
        next_id(sibling_ids, STARTING_TASK_ID)
    }

    /// The task as it is to be written, given its project, the configuration,
    /// and the numbers that the names of the project's task directories
    /// stand for. A task that has a number keeps it, whatever the others are.
    pub fn save_task(&self, task: &Task, project: &Project, config: &Config, sibling_ids: &Vec<u32>) -> (r:
        Result<Task, Error>)
        requires
            task@.id is None ==> ids_have_room(sibling_ids@),
        ensures
            task_result(r) == task_to_save(
                task@,
                match project@.task_state_config {
                    Some(c) => c,
                    None => config.states_view(),
                },
                sibling_ids@,
            ),
    {
        if task.project_id().is_none() {
            return Err(Error::TaskMissingProjectId(task.clone()));
        }
        let task_state_config = match project.task_state_config() {
            Some(c) => c,
            None => config.task_state_config(),
        };
        let state = match task_state_config.validate_or_initial(task.state()) {
            Ok(s) => s,
            Err(e) => {
                return Err(e);
            },
        };
        let task_id = match task.id() {
            Some(id) => id,
            None => self.next_task_id(sibling_ids),
        };
        Ok(task.clone().with_id(task_id).with_state(state.as_str()))
    }

    /// The number for a new log beside the logs with these numbers.
    pub fn next_log_id(&self, sibling_ids: &Vec<u32>) -> (r: u32)
        requires
            ids_have_room(sibling_ids@),
        ensures
            r == next_after(sibling_ids@, STARTING_LOG_ID),
    {
        next_id(sibling_ids, STARTING_LOG_ID)
    }

    /// The logs of the projects and the logs of the tasks as one list: first
    /// those of the projects, project after project, then those of the tasks,
    /// task after task.
    pub fn logs(&self, project_logs: Vec<Vec<Log>>, task_logs: Vec<Vec<Log>>) -> (r: Vec<Log>)
        ensures
            r@ == chained(project_logs@) + chained(task_logs@),
    {
        let mut logs = chain(project_logs);
        let mut more = chain(task_logs);
        logs.append(&mut more);
        logs
    }

    /// Of the logs found in a folder, those that the filter wants.
    pub fn logs_for_project_or_task(
        &self,
        found: Vec<Log>,
        filter: &FilterSpec<LogFilter>,
        now: Timestamp,
    ) -> (r: Vec<Log>)
        requires
            filter.usable_at(now),
        ensures
            r@ == kept(found@, filter, now),
    {
        keep(found, filter, now)
    }

    /// The log with this number in this project or task, given the document
    /// found for it: the document with number, project and task set, or the
    /// fault where none was found.
    pub fn log(&self, project_id: &str, maybe_task_id: Option<u32>, id: u32, stored: Option<Log>) -> (r:
        Result<Log, Error>)
        ensures
            crate::worklog::log_result(r) == match stored {
                Some(l) => Ok::<LogView, ErrorView>(log_read(l@, project_id@, maybe_task_id, id)),
                None => Err::<LogView, ErrorView>(
                    ErrorView::LogNotFound(project_id@, maybe_task_id, id),
                ),
            },
    {
        match stored {
            Some(l) => Ok(
                l.with_id(id).with_project_id(project_id).with_maybe_task_id(maybe_task_id),
            ),
            None => Err(Error::LogNotFound(owned(project_id), maybe_task_id, id)),
        }
    }

    /// The log as it is to be written, given whether the directories of its
    /// project and of its task are there, and the numbers that the names of
    /// the files in its folder stand for. A log that has a number keeps it,
    /// whatever the others are.
    pub fn save_log(&self, log: &Log, project_exists: bool, task_exists: bool, sibling_ids: &Vec<u32>) -> (r:
        Result<Log, Error>)
        requires
            log@.id is None ==> ids_have_room(sibling_ids@),
        ensures
            crate::worklog::log_result(r) == log_to_save(
                log@,
                project_exists,
                task_exists,
                sibling_ids@,
            ),
    {
        let project_id = match log.project_id() {
            Some(id) => id,
            None => {
                return Err(Error::LogMissingProjectId(log.clone()));
            },
        };
        if !project_exists {
            return Err(Error::ProjectNotFound(owned(project_id)));
        }
        match log.task_id() {
            Some(task_id) => {
                if !task_exists {
                    return Err(Error::TaskNotFound(owned(project_id), task_id));
                }
            },
            None => {},
        }
        let log_id = match log.id() {
            Some(id) => id,
            None => self.next_log_id(sibling_ids),
        };
        Ok(log.clone().with_id(log_id))
    }

    /// The file to remove in order to delete a log.
    pub fn delete_log(&self, project_id: &str, maybe_task_id: Option<u32>, id: u32) -> (r: String)
        ensures
            r@ == path_join(
                match maybe_task_id {
                    Some(task_id) => path_join(
                        path_join(path_join(self.root(), project_id@), "tasks"@),
                        task_dir_name(task_id),
                    ),
                    None => path_join(path_join(self.root(), project_id@), "logs"@),
                },
                log_file_name(id),
            ),
    {
        self.log_path(project_id, maybe_task_id, id)
    }
}

/// The last component of a path made by joining is the name that was joined
/// on, where that name holds no `/`.
pub proof fn lemma_file_name_of_join(base: Seq<char>, name: Seq<char>)
    requires
        forall|i: int| 0 <= i < name.len() ==> name[i] != '/',
    ensures
        file_name(path_join(base, name)) == name,
{
    let path = path_join(base, name);
    if base.len() == 0 {
        lemma_last_index_of(path, '/', -1);
        assert(path.skip(0) == path);
    } else if base.last() == '/' {
        assert forall|i: int| base.len() - 1 < i < path.len() implies path[i] != '/' by {
            assert(path[i] == name[i - base.len()]);
        }
        lemma_last_index_of(path, '/', base.len() - 1);
        assert(path.skip(base.len() as int) == name);
    } else {
        assert forall|i: int| base.len() < i < path.len() implies path[i] != '/' by {
            assert(path[i] == name[i - base.len() - 1]);
        }
        lemma_last_index_of(path, '/', base.len() as int);
        assert(path.skip(base.len() as int + 1) == name);
    }
}

/// A number written with padding is made of digits only.
pub proof fn lemma_padded_digits(n: nat, width: nat)
    ensures
        padded_decimal(n, width).len() >= 1,
        forall|i: int| 0 <= i < padded_decimal(n, width).len() ==> is_digit(
            #[trigger] padded_decimal(n, width)[i],
        ),
{
    lemma_decimal_text(n);
    let t = decimal_text(n);
    let s = padded_decimal(n, width);
    assert forall|i: int| 0 <= i < s.len() implies is_digit(#[trigger] s[i]) by {
        if t.len() < width {
            if i >= width - t.len() {
                assert(s[i] == t[i - (width - t.len())]);
            }
        }
    }
}

/// The number of a task is read back from the path of its directory: from
/// the name under which `task_path` puts it, whatever the directory above.
pub proof fn lemma_task_path_roundtrip(base: Seq<char>, id: u32)
    ensures
        task_id_of(path_join(base, task_dir_name(id))) == Ok::<u32, ErrorView>(id),
{
    let name = task_dir_name(id);
    lemma_padded_digits(id as nat, 4);
    assert forall|i: int| 0 <= i < name.len() implies name[i] != '/' by {
        assert(is_digit(name[i]));
    }
    lemma_file_name_of_join(base, name);
    lemma_padded_roundtrip(id as nat, 4, u32::MAX as nat);
}

/// The number of a log is read back from the path of its file: from the name
/// under which `log_path` puts it, whatever the directory above.
pub proof fn lemma_log_path_roundtrip(base: Seq<char>, id: u32)
    ensures
        log_id_of(path_join(base, log_file_name(id))) == Ok::<u32, ErrorView>(id),
{
    let digits = padded_decimal(id as nat, 5);
    let name = log_file_name(id);
    lemma_padded_digits(id as nat, 5);
    reveal_strlit(".json");
    let ext = ".json"@;
    assert(ext.len() == 5);
    assert forall|i: int| 0 <= i < name.len() implies name[i] != '/' by {
        if i < digits.len() {
            assert(name[i] == digits[i]);
            assert(is_digit(digits[i]));
        } else {
            assert(name[i] == ext[i - digits.len()]);
        }
    }
    lemma_file_name_of_join(base, name);
    assert(name[digits.len() as int] == ext[0]);
    assert forall|i: int| digits.len() < i < name.len() implies name[i] != '.' by {
        assert(name[i] == ext[i - digits.len()]);
    }
    lemma_last_index_of(name, '.', digits.len() as int);
    assert(name.take(digits.len() as int) == digits);
    lemma_padded_roundtrip(id as nat, 5, u32::MAX as nat);
}

} // verus!
