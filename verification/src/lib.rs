//! Time tracking organised into projects, tasks and work logs.
//!
//! The library holds the objects, the filters and orders over them, the
//! reading of times and durations as people write them, and the rules of the
//! store: where each object lives under the storage root, which number a new
//! object gets, and what each operation makes of what is found on disk.
//! Reading and writing the disk is left to the program around it.

pub mod calendar;
pub mod cmd;
pub mod config;
pub mod duration;
pub mod error;
pub mod filter;
pub mod numbers;
pub mod project;
pub mod ranking;
pub mod sort;
pub mod storage;
pub mod strings;
pub mod tags;
pub mod task;
pub mod text;
pub mod timestamp;
pub mod worklog;

pub use crate::config::{Config, State, TaskStateConfig, MIN_TASK_STATES};
pub use crate::duration::{parse_duration_components, Duration};
pub use crate::error::Error;
pub use crate::filter::{Comparison, DurationFilter, Filter, FilterSpec, TimestampFilter};
pub use crate::numbers::NumberError;
pub use crate::project::{Project, ProjectField, ProjectFilter};
pub use crate::sort::{Comparator, Order, Relation, SortSpec};
pub use crate::storage::Store;
pub use crate::strings::slugify;
pub use crate::tags::validate_tag;
pub use crate::task::{
    Task, TaskField, TaskFilter, DEFAULT_TASK_PRIORITY, MAX_TASK_PRIORITY, MIN_TASK_PRIORITY,
};
pub use crate::timestamp::{parse_prefix_offset, parse_timestamp, Timestamp};
pub use crate::worklog::{Log, LogField, LogFilter};

use vstd::prelude::*;

verus! {

/// The identifier of a project: the slug of its name.
pub type ProjectId = String;

/// The number of a task within its project.
pub type TaskId = u32;

/// The number of a log within its folder.
pub type LogId = u32;

/// The name of a state of a task.
pub type TaskState = String;

/// The priority of a task; lower values are more urgent.
pub type TaskPriority = u8;

} // verus!
