//! The states that tasks go through, the configuration that names them,
//! and the record of the log that is being tracked.

use vstd::prelude::*;
use crate::error::{Error, ErrorView};
use crate::tags::{copy_lines, holds};
use crate::text::{lines, owned};

verus! {

/// The least number of states that a configuration must name.
pub const MIN_TASK_STATES: usize = 3;

/// The states of a task, in order, and which of them a task starts in, is in
/// while worked on, and ends in.
#[derive(Debug, PartialEq)]
pub struct TaskStateConfig {
    states: Vec<String>,
    initial: String,
    in_progress: String,
    done: String,
}

/// What a [`TaskStateConfig`] holds.
pub struct TaskStateConfigView {
    pub states: Seq<Seq<char>>,
    pub initial: Seq<char>,
    pub in_progress: Seq<char>,
    pub done: Seq<char>,
}

/// The states of the configuration that is used where none is given.
pub open spec fn default_states() -> Seq<Seq<char>> {
    seq!["inbox"@, "todo"@, "blocked"@, "doing"@, "done"@]
}

/// What making a configuration from these parts gives: the parts, or the
/// first fault among too few states, a state named twice, and an initial,
/// in-progress or final state that is not among the states.
pub open spec fn config_checked(
    states: Seq<Seq<char>>,
    initial: Seq<char>,
    in_progress: Seq<char>,
    done: Seq<char>,
) -> Result<TaskStateConfigView, ErrorView> {
    if states.len() < MIN_TASK_STATES {
        Err(ErrorView::TooFewTaskStates(states.len() as usize, MIN_TASK_STATES))
    } else if !states.no_duplicates() {
        Err(ErrorView::DuplicateTaskStates(states))
    } else if !states.contains(initial) {
        Err(ErrorView::InvalidTaskState(initial, states))
    } else if !states.contains(in_progress) {
        Err(ErrorView::InvalidTaskState(in_progress, states))
    } else if !states.contains(done) {
        Err(ErrorView::InvalidTaskState(done, states))
    } else {
        Ok(TaskStateConfigView { states, initial, in_progress, done })
    }
}

impl View for TaskStateConfig {
    type V = TaskStateConfigView;

    closed spec fn view(&self) -> TaskStateConfigView {
        TaskStateConfigView {
            states: lines(self.states@),
            initial: self.initial@,
            in_progress: self.in_progress@,
            done: self.done@,
        }
    }
}

impl Clone for TaskStateConfig {
    fn clone(&self) -> (r: Self)
        ensures
            r@ == self@,
    {
        TaskStateConfig {
            states: copy_lines(&self.states),
            initial: self.initial.clone(),
            in_progress: self.in_progress.clone(),
            done: self.done.clone(),
        }
    }
}

/// Tells whether no text occurs twice in `list`.
fn all_distinct(list: &Vec<String>) -> (r: bool)
    ensures
        r == lines(list@).no_duplicates(),
{
    let ghost all = lines(list@);
    let mut i: usize = 0;
    while i < list.len()
        invariant
            i <= list.len(),
            all == lines(list@),
            forall|a: int, b: int| 0 <= a < b < i ==> all[a] != all[b],
        decreases list.len() - i,
    {
        let mut j: usize = 0;
        while j < i
            invariant
                j <= i,
                i < list.len(),
                all == lines(list@),
                forall|a: int| 0 <= a < j ==> all[a] != all[i as int],
            decreases i - j,
        {
            if crate::text::same_text(list[j].as_str(), list[i].as_str()) {
                assert(all[j as int] == all[i as int]);
                return false;
            }
            j = j + 1;
        }
        i = i + 1;
    }
    true
}

impl TaskStateConfig {
    /// The invariant that `new` establishes: at least three states, none
    /// named twice, and the three special states among them.
    pub open spec fn wf(&self) -> bool {
        &&& self@.states.len() >= MIN_TASK_STATES
        &&& self@.states.no_duplicates()
        &&& self@.states.contains(self@.initial)
        &&& self@.states.contains(self@.in_progress)
        &&& self@.states.contains(self@.done)
    }

    /// The configuration that is used where none is given: `inbox`, `todo`,
    /// `blocked`, `doing` and `done`, starting in `inbox`, worked on in
    /// `doing`, ending in `done`.
    pub fn default() -> (r: Self)
        ensures
            r@ == (TaskStateConfigView {
                states: default_states(),
                initial: "inbox"@,
                in_progress: "doing"@,
                done: "done"@,
            }),
    {
        let mut states: Vec<String> = Vec::new();
        states.push(owned("inbox"));
        states.push(owned("todo"));
        states.push(owned("blocked"));
        states.push(owned("doing"));
        states.push(owned("done"));
        assert(lines(states@) == default_states());
        TaskStateConfig {
            states,
            initial: owned("inbox"),
            in_progress: owned("doing"),
            done: owned("done"),
        }
    }

    /// Makes a configuration, checking it.
    pub fn new(states: Vec<String>, initial: String, in_progress: String, done: String) -> (r:
        Result<Self, Error>)
        ensures
            match r {
                Ok(c) => config_checked(lines(states@), initial@, in_progress@, done@) == Ok::<
                    TaskStateConfigView,
                    ErrorView,
                >(c@) && c.wf(),
                Err(e) => config_checked(lines(states@), initial@, in_progress@, done@) == Err::<
                    TaskStateConfigView,
                    ErrorView,
                >(e@),
            },
    {
        if states.len() < MIN_TASK_STATES {
            return Err(Error::TooFewTaskStates(states.len(), MIN_TASK_STATES));
        }
        if !all_distinct(&states) {
            return Err(Error::DuplicateTaskStates(states));
        }
        if !holds(&states, initial.as_str()) {
            return Err(Error::InvalidTaskState(initial, states));
        }
        if !holds(&states, in_progress.as_str()) {
            return Err(Error::InvalidTaskState(in_progress, states));
        }
        if !holds(&states, done.as_str()) {
            return Err(Error::InvalidTaskState(done, states));
        }
        Ok(TaskStateConfig { states, initial, in_progress, done })
    }

    /// The state that a task gets: the given one where it is one of the
    /// states of the configuration, the initial state where none is given.
    pub fn validate_or_initial(&self, maybe_state: Option<&str>) -> (r: Result<String, Error>)
        ensures
            match maybe_state {
                None => r matches Ok(s) && s@ == self@.initial,
                Some(state) => if self@.states.contains(state@) {
                    r matches Ok(s) && s@ == state@
                } else {
                    r matches Err(e) && e@ == ErrorView::InvalidTaskState(state@, self@.states)
                },
            },
    {
        match maybe_state {
            Some(state) => {
                if holds(&self.states, state) {
                    Ok(owned(state))
                } else {
                    Err(Error::InvalidTaskState(owned(state), copy_lines(&self.states)))
                }
            },
            None => Ok(self.initial.clone()),
        }
    }

    /// The states, in order.
    pub fn states(&self) -> (r: &Vec<String>)
        ensures
            lines(r@) == self@.states,
    {
        &self.states
    }

    /// The state that a task starts in.
    pub fn initial(&self) -> (r: &str)
        ensures
            r@ == self@.initial,
    {
        self.initial.as_str()
    }

    /// The state of a task that is being worked on.
    pub fn in_progress(&self) -> (r: &str)
        ensures
            r@ == self@.in_progress,
    {
        self.in_progress.as_str()
    }

    /// The state of a finished task.
    pub fn done(&self) -> (r: &str)
        ensures
            r@ == self@.done,
    {
        self.done.as_str()
    }
}

/// The configuration of a store.
#[derive(Debug, PartialEq)]
pub struct Config {
    task_state_config: TaskStateConfig,
}

impl Clone for Config {
    fn clone(&self) -> (r: Self)
        ensures
            r.states_view() == self.states_view(),
    {
        Config { task_state_config: self.task_state_config.clone() }
    }
}

impl Config {
    /// What the task states of the configuration hold.
    pub closed spec fn states_view(&self) -> TaskStateConfigView {
        self.task_state_config@
    }

    /// What the default configuration holds.
    pub open spec fn default_view() -> TaskStateConfigView {
        TaskStateConfigView {
            states: default_states(),
            initial: "inbox"@,
            in_progress: "doing"@,
            done: "done"@,
        }
    }

    /// The configuration with the default task states.
    pub fn default() -> (r: Self)
        ensures
            r.states_view() == Self::default_view(),
    {
        Config { task_state_config: TaskStateConfig::default() }
    }

    /// The configuration with these task states.
    pub fn with_task_state_config(self, config: &TaskStateConfig) -> (r: Self)
        ensures
            r.states_view() == config@,
    {
        Config { task_state_config: config.clone() }
    }

    /// The task states.
    pub fn task_state_config(&self) -> (r: &TaskStateConfig)
        ensures
            r@ == self.states_view(),
    {
        &self.task_state_config
    }
}

/// Which log is being tracked, if any: its project, its task if it has one,
/// and its number.
#[derive(Debug, PartialEq)]
pub struct State {
    active_log: Option<(String, Option<u32>, u32)>,
}

impl Clone for State {
    fn clone(&self) -> (r: Self)
        ensures
            r.active() == self.active(),
    {
        State { active_log: self.active_log() }
    }
}

impl State {
    /// The log that is being tracked.
    pub closed spec fn active(&self) -> Option<(Seq<char>, Option<u32>, u32)> {
        match self.active_log {
            Some(t) => Some((t.0@, t.1, t.2)),
            None => None,
        }
    }

    /// The state in which no log is being tracked.
    pub fn default() -> (r: Self)
        ensures
            r.active() is None,
    {
        State { active_log: None }
    }

    /// The state in which this log is being tracked.
    pub fn with_active_log(self, project_id: &str, maybe_task_id: Option<u32>, log_id: u32) -> (r:
        Self)
        ensures
            r.active() == Some((project_id@, maybe_task_id, log_id)),
    {
        State { active_log: Some((owned(project_id), maybe_task_id, log_id)) }
    }

    /// The state in which no log is being tracked.
    pub fn with_no_active_log(self) -> (r: Self)
        ensures
            r.active() is None,
    {
        State { active_log: None }
    }

    /// The log that is being tracked.
    pub fn active_log(&self) -> (r: Option<(String, Option<u32>, u32)>)
        ensures
            match r {
                Some(t) => self.active() == Some((t.0@, t.1, t.2)),
                None => self.active() is None,
            },
    {
        match &self.active_log {
            Some(t) => Some((t.0.clone(), t.1, t.2)),
            None => None,
        }
    }
}

} // verus!
