//! The errors that the library reports.

use vstd::prelude::*;
use crate::numbers::NumberError;
use crate::task::{Task, TaskView};
use crate::text::lines;
use crate::worklog::{Log, LogView};

verus! {

/// Everything that can go wrong in the library and around it.
///
/// Paths, and the messages of failures that arise outside the library, are
/// carried as text.
#[derive(Debug, Clone, PartialEq)]
pub enum Error {
    /// No file at this path.
    FileNotFound(String),
    /// No project with this identifier.
    ProjectNotFound(String),
    /// A project with this identifier is already there.
    ProjectAlreadyExists(String),
    /// The project has no task with this number.
    TaskNotFound(String, u32),
    /// Several tasks of the project carry this number.
    MultipleTasks(String, u32, Vec<Task>),
    /// The task does not say which project it belongs to.
    TaskMissingProjectId(Task),
    /// The task has no state.
    TaskMissingState(Task),
    /// A log without a start time cannot be stopped.
    LogWithoutStartCannotStop,
    /// A log cannot stop before it starts.
    LogCannotStopBeforeStart,
    /// The time between start and stop cannot be held as a duration.
    LogDurationCalculationFailed,
    /// No log with this project, task and number.
    LogNotFound(String, Option<u32>, u32),
    /// The log does not say which project it belongs to.
    LogMissingProjectId(Log),
    /// The log has no number.
    LogMissingId(Log),
    /// No log is being tracked at present.
    NoActiveLog,
    /// The path has no usable last component.
    InvalidPath(String),
    /// The name of a task's directory is not a task number.
    InvalidTaskNumber(String, NumberError),
    /// The state is not among the states that the configuration allows.
    InvalidTaskState(String, Vec<String>),
    /// A state occurs twice in the list of states.
    DuplicateTaskStates(Vec<String>),
    /// Fewer states than the minimum: the number found, then the minimum.
    TooFewTaskStates(usize, usize),
    /// The priority is outside the range: the value, the least and the greatest.
    InvalidTaskPriority(u8, u8, u8),
    /// The list of priorities holds something that is not a priority.
    CannotParseTaskPriority(String, NumberError),
    /// The list of task numbers holds something that is not a number.
    InvalidTaskIds(String, NumberError),
    /// The name of a log's file is not a log number.
    InvalidLogNumber(String, NumberError),
    /// A failure of the file system, with its message.
    Io(String),
    /// A document could not be written or read: the message, then the content.
    Serialize(String, String),
    /// A format description for dates and times is malformed.
    InvalidDateTimeFormat(String),
    /// The text is not a date and time in any accepted form.
    InvalidDateTime(String),
    /// The offset of the local time zone cannot be found.
    CannotDetermineTimeZone(String),
    /// A duration starts with something other than a digit.
    DurationMustStartWithNumber(String),
    /// The amount of a duration component is not a number.
    InvalidDurationAmount(String, NumberError),
    /// The unit of a duration component is not one of `w`, `d`, `h`, `m`, `s`.
    InvalidDurationUnit(String),
    /// The amount and unit give a duration too long to hold.
    InvalidDuration(String, String),
    /// A tag holds a character other than a letter, a digit, `-` or `_`.
    TagHasInvalidChars(String),
    /// No project field of this name.
    UnrecognizedProjectField(String),
    /// No task field of this name.
    UnrecognizedTaskField(String),
    /// No log field of this name.
    UnrecognizedLogField(String),
    /// Neither ascending nor descending.
    UnrecognizedSortOrder(String),
    /// Both a duration and a stop time were given.
    CannotAcceptDurationAndStop,
    /// A sort specification with an empty component.
    SortSpecHasEmptyComponent(String),
    /// A sort field with more than one colon: the specification, then the field.
    TooManyComponentsInSortSpec(String, String),
    /// The text is not a timestamp filter.
    InvalidTimestampFilter(String),
    /// The number of days of a timestamp filter is not a number.
    TimestampFilterParsingFailed(String),
    /// The text is not a duration filter.
    InvalidDurationFilter(String),
    /// The operator of a duration filter is unknown: the operator, then the filter.
    InvalidDurationFilterOp(String, String),
    /// A log is named by project and number together, or by neither.
    BothProjectAndLogIdRequired,
    /// The storage root is already a repository.
    RemoteAlreadyInitialized(String),
    /// Setting up the remote failed.
    RemoteInitFailed,
    /// The storage root is not a repository.
    NotRemote(String),
    /// Pushing to the remote failed.
    RemotePushFailed(String),
}

/// What an [`Error`] holds, with each text as its sequence of characters.
pub enum ErrorView {
    FileNotFound(Seq<char>),
    ProjectNotFound(Seq<char>),
    ProjectAlreadyExists(Seq<char>),
    TaskNotFound(Seq<char>, u32),
    MultipleTasks(Seq<char>, u32, Seq<TaskView>),
    TaskMissingProjectId(TaskView),
    TaskMissingState(TaskView),
    LogWithoutStartCannotStop,
    LogCannotStopBeforeStart,
    LogDurationCalculationFailed,
    LogNotFound(Seq<char>, Option<u32>, u32),
    LogMissingProjectId(LogView),
    LogMissingId(LogView),
    NoActiveLog,
    InvalidPath(Seq<char>),
    InvalidTaskNumber(Seq<char>, NumberError),
    InvalidTaskState(Seq<char>, Seq<Seq<char>>),
    DuplicateTaskStates(Seq<Seq<char>>),
    TooFewTaskStates(usize, usize),
    InvalidTaskPriority(u8, u8, u8),
    CannotParseTaskPriority(Seq<char>, NumberError),
    InvalidTaskIds(Seq<char>, NumberError),
    InvalidLogNumber(Seq<char>, NumberError),
    Io(Seq<char>),
    Serialize(Seq<char>, Seq<char>),
    InvalidDateTimeFormat(Seq<char>),
    InvalidDateTime(Seq<char>),
    CannotDetermineTimeZone(Seq<char>),
    DurationMustStartWithNumber(Seq<char>),
    InvalidDurationAmount(Seq<char>, NumberError),
    InvalidDurationUnit(Seq<char>),
    InvalidDuration(Seq<char>, Seq<char>),
    TagHasInvalidChars(Seq<char>),
    UnrecognizedProjectField(Seq<char>),
    UnrecognizedTaskField(Seq<char>),
    UnrecognizedLogField(Seq<char>),
    UnrecognizedSortOrder(Seq<char>),
    CannotAcceptDurationAndStop,
    SortSpecHasEmptyComponent(Seq<char>),
    TooManyComponentsInSortSpec(Seq<char>, Seq<char>),
    InvalidTimestampFilter(Seq<char>),
    TimestampFilterParsingFailed(Seq<char>),
    InvalidDurationFilter(Seq<char>),
    InvalidDurationFilterOp(Seq<char>, Seq<char>),
    BothProjectAndLogIdRequired,
    RemoteAlreadyInitialized(Seq<char>),
    RemoteInitFailed,
    NotRemote(Seq<char>),
    RemotePushFailed(Seq<char>),
}

impl View for Error {
    type V = ErrorView;

    open spec fn view(&self) -> ErrorView {
        match self {
            Error::FileNotFound(a) => ErrorView::FileNotFound(a@),
            Error::ProjectNotFound(a) => ErrorView::ProjectNotFound(a@),
            Error::ProjectAlreadyExists(a) => ErrorView::ProjectAlreadyExists(a@),
            Error::TaskNotFound(a, b) => ErrorView::TaskNotFound(a@, *b),
            Error::MultipleTasks(a, b, c) => ErrorView::MultipleTasks(
                a@,
                *b,
                c@.map_values(|t: Task| t@),
            ),
            Error::TaskMissingProjectId(a) => ErrorView::TaskMissingProjectId(a@),
            Error::TaskMissingState(a) => ErrorView::TaskMissingState(a@),
            Error::LogWithoutStartCannotStop => ErrorView::LogWithoutStartCannotStop,
            Error::LogCannotStopBeforeStart => ErrorView::LogCannotStopBeforeStart,
            Error::LogDurationCalculationFailed => ErrorView::LogDurationCalculationFailed,
            Error::LogNotFound(a, b, c) => ErrorView::LogNotFound(a@, *b, *c),
            Error::LogMissingProjectId(a) => ErrorView::LogMissingProjectId(a@),
            Error::LogMissingId(a) => ErrorView::LogMissingId(a@),
            Error::NoActiveLog => ErrorView::NoActiveLog,
            Error::InvalidPath(a) => ErrorView::InvalidPath(a@),
            Error::InvalidTaskNumber(a, b) => ErrorView::InvalidTaskNumber(a@, *b),
            Error::InvalidTaskState(a, b) => ErrorView::InvalidTaskState(a@, lines(b@)),
            Error::DuplicateTaskStates(a) => ErrorView::DuplicateTaskStates(lines(a@)),
            Error::TooFewTaskStates(a, b) => ErrorView::TooFewTaskStates(*a, *b),
            Error::InvalidTaskPriority(a, b, c) => ErrorView::InvalidTaskPriority(*a, *b, *c),
            Error::CannotParseTaskPriority(a, b) => ErrorView::CannotParseTaskPriority(a@, *b),
            Error::InvalidTaskIds(a, b) => ErrorView::InvalidTaskIds(a@, *b),
            Error::InvalidLogNumber(a, b) => ErrorView::InvalidLogNumber(a@, *b),
            Error::Io(a) => ErrorView::Io(a@),
            Error::Serialize(a, b) => ErrorView::Serialize(a@, b@),
            Error::InvalidDateTimeFormat(a) => ErrorView::InvalidDateTimeFormat(a@),
            Error::InvalidDateTime(a) => ErrorView::InvalidDateTime(a@),
            Error::CannotDetermineTimeZone(a) => ErrorView::CannotDetermineTimeZone(a@),
            Error::DurationMustStartWithNumber(a) => ErrorView::DurationMustStartWithNumber(a@),
            Error::InvalidDurationAmount(a, b) => ErrorView::InvalidDurationAmount(a@, *b),
            Error::InvalidDurationUnit(a) => ErrorView::InvalidDurationUnit(a@),
            Error::InvalidDuration(a, b) => ErrorView::InvalidDuration(a@, b@),
            Error::TagHasInvalidChars(a) => ErrorView::TagHasInvalidChars(a@),
            Error::UnrecognizedProjectField(a) => ErrorView::UnrecognizedProjectField(a@),
            Error::UnrecognizedTaskField(a) => ErrorView::UnrecognizedTaskField(a@),
            Error::UnrecognizedLogField(a) => ErrorView::UnrecognizedLogField(a@),
            Error::UnrecognizedSortOrder(a) => ErrorView::UnrecognizedSortOrder(a@),
            Error::CannotAcceptDurationAndStop => ErrorView::CannotAcceptDurationAndStop,
            Error::SortSpecHasEmptyComponent(a) => ErrorView::SortSpecHasEmptyComponent(a@),
            Error::TooManyComponentsInSortSpec(a, b) => ErrorView::TooManyComponentsInSortSpec(a@, b@),
            Error::InvalidTimestampFilter(a) => ErrorView::InvalidTimestampFilter(a@),
            Error::TimestampFilterParsingFailed(a) => ErrorView::TimestampFilterParsingFailed(a@),
            Error::InvalidDurationFilter(a) => ErrorView::InvalidDurationFilter(a@),
            Error::InvalidDurationFilterOp(a, b) => ErrorView::InvalidDurationFilterOp(a@, b@),
            Error::BothProjectAndLogIdRequired => ErrorView::BothProjectAndLogIdRequired,
            Error::RemoteAlreadyInitialized(a) => ErrorView::RemoteAlreadyInitialized(a@),
            Error::RemoteInitFailed => ErrorView::RemoteInitFailed,
            Error::NotRemote(a) => ErrorView::NotRemote(a@),
            Error::RemotePushFailed(a) => ErrorView::RemotePushFailed(a@),
        }
    }
}

} // verus!
