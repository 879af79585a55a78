use loiter::{
    Comparator, Config, Duration, DurationFilter, Error, Filter, FilterSpec, Log, LogField,
    LogFilter, Order, Project, ProjectField, ProjectFilter, Relation, SortSpec, State, Task,
    TaskField, TaskFilter, TaskStateConfig, Timestamp, TimestampFilter,
};

fn stamp(year: i32, month: u8, day: u8, hour: u8, minute: u8, offset_hours: i8) -> Timestamp {
    let date = time::Date::from_calendar_date(year, time::Month::try_from(month).unwrap(), day).unwrap();
    let offset = time::UtcOffset::from_hms(offset_hours, 0, 0).unwrap();
    let dt = date.with_hms(hour, minute, 0).unwrap().assume_offset(offset);
    Timestamp::from_unix(dt.unix_timestamp(), 0, offset.whole_seconds()).unwrap()
}

fn test_now() -> Timestamp {
    stamp(2021, 12, 5, 19, 42, -5)
}

fn strings(v: &[&str]) -> Vec<String> {
    v.iter().map(|s| s.to_string()).collect()
}

#[test]
fn sort_spec_parsing() {
    let cases: Vec<(&'static str, SortSpec<ProjectField>)> = vec![
        ("id", SortSpec::new(ProjectField::Id, Order::Asc)),
        ("id,name", SortSpec::new(ProjectField::Id, Order::Asc).and_then(ProjectField::Name, Order::Asc)),
        ("id:d, name:a", SortSpec::new(ProjectField::Id, Order::Desc).and_then(ProjectField::Name, Order::Asc)),
    ];
    for (s, expected) in cases.iter() {
        let actual = SortSpec::<ProjectField>::from_str(s).unwrap();
        assert_eq!(actual, expected.clone());
    }
}

#[test]
fn sort_spec_display() {
    let cases: Vec<(SortSpec<ProjectField>, &'static str)> = vec![
        (SortSpec::new(ProjectField::Id, Order::Asc), "id"),
        (
            SortSpec::new(ProjectField::Name, Order::Desc).and_then(ProjectField::Id, Order::Asc),
            "name:desc,id",
        ),
    ];
    for (s, expected) in cases.iter() {
        let actual = s.to_string();
        assert_eq!(&actual, expected);
    }
}

#[test]
fn timestamp_filter_parsing() {
    let cases: Vec<(&'static str, TimestampFilter)> = vec![
        ("today", TimestampFilter::Today),
        ("tomorrow", TimestampFilter::Tomorrow),
        ("tmrw", TimestampFilter::Tomorrow),
    ];
    for (s, expected) in cases.iter() {
        let actual = TimestampFilter::parse(s, test_now()).unwrap();
        assert_eq!(actual, *expected);
    }
}

#[test]
fn duration_filter_parsing() {
    let cases: Vec<(&'static str, DurationFilter)> =
        vec![("< 1h", DurationFilter::LessThan(Duration::from_seconds(3600)))];
    for (s, expected) in cases.iter() {
        let actual = DurationFilter::from_str(s).unwrap();
        assert_eq!(actual, *expected);
    }
}

#[test]
fn sort_spec_faults() {
    assert_eq!(
        SortSpec::<ProjectField>::from_str("id:asc:x"),
        Err(Error::TooManyComponentsInSortSpec("id:asc:x".to_string(), "id:asc:x".to_string()))
    );
    assert_eq!(
        SortSpec::<ProjectField>::from_str("id, name:a:b"),
        Err(Error::TooManyComponentsInSortSpec("id, name:a:b".to_string(), " name:a:b".to_string()))
    );
    assert_eq!(
        SortSpec::<ProjectField>::from_str("colour"),
        Err(Error::UnrecognizedProjectField("colour".to_string()))
    );
    assert_eq!(
        SortSpec::<TaskField>::from_str("id,"),
        Err(Error::UnrecognizedTaskField("".to_string()))
    );
    assert_eq!(
        SortSpec::<LogField>::from_str("start:up"),
        Err(Error::UnrecognizedSortOrder("up".to_string()))
    );
    assert_eq!(
        SortSpec::<LogField>::from_str("nope:up"),
        Err(Error::UnrecognizedLogField("nope".to_string()))
    );
    assert_eq!(Order::from_str("desc"), Ok(Order::Desc));
    assert_eq!(Order::from_str("a"), Ok(Order::Asc));
    assert_eq!(Order::from_str("down"), Err(Error::UnrecognizedSortOrder("down".to_string())));
    assert_eq!(Order::Desc.to_string(), "desc");
    assert_eq!(Order::default(), Order::Asc);
}

#[test]
fn field_names_are_read_and_written() {
    for (name, field) in [
        ("id", TaskField::Id),
        ("project_id", TaskField::ProjectId),
        ("project-id", TaskField::ProjectId),
        ("project", TaskField::ProjectId),
        ("desc", TaskField::Description),
        ("priority", TaskField::Priority),
        ("state", TaskField::State),
        ("deadline", TaskField::Deadline),
    ] {
        assert_eq!(TaskField::from_str(name), Ok(field));
    }
    assert_eq!(TaskField::ProjectId.to_string(), "project-id");
    assert_eq!(LogField::from_str("task"), Ok(LogField::TaskId));
    assert_eq!(LogField::from_str("duration"), Ok(LogField::Duration));
    assert_eq!(LogField::TaskId.to_string(), "task-id");
    assert_eq!(ProjectField::from_str("desc"), Ok(ProjectField::Description));
    assert_eq!(ProjectField::Description.to_string(), "description");
    assert_eq!(
        SortSpec::<TaskField>::from_str("priority,project,id").unwrap(),
        loiter::task::default_task_sort()
    );
    assert_eq!(loiter::task::default_task_sort().to_string(), "priority,project-id,id");
    assert_eq!(loiter::project::default_project_sort().to_string(), "name");
    assert_eq!(loiter::worklog::default_log_sort().to_string(), "project-id,task-id,id");
}

#[test]
fn sorting_is_stable() {
    let a = Task::new("p", "first").with_priority(1).unwrap().with_id(5);
    let b = Task::new("p", "second").with_priority(1).unwrap().with_id(2);
    let sorted = SortSpec::new(TaskField::Priority, Order::Asc).sort(vec![a.clone(), b.clone()]);
    assert_eq!(sorted, vec![a.clone(), b.clone()]);
    let by_id = SortSpec::new(TaskField::Priority, Order::Asc)
        .and_then(TaskField::Id, Order::Asc)
        .sort(vec![a.clone(), b.clone()]);
    assert_eq!(by_id, vec![b.clone(), a.clone()]);
    let down = SortSpec::new(TaskField::Id, Order::Desc).sort(vec![b.clone(), a.clone()]);
    assert_eq!(down, vec![a, b]);
}

#[test]
fn sorting_agrees_with_the_standard_library() {
    let mut tasks = Vec::new();
    let mut seed: u32 = 7;
    for i in 0..60u32 {
        seed = seed.wrapping_mul(1103515245).wrapping_add(12345);
        let priority = (seed >> 16) % 4 + 1;
        let project = ["b", "a", "c"][((seed >> 8) % 3) as usize];
        tasks.push(Task::new(project, "t").with_priority(priority as u8).unwrap().with_id(i));
    }
    let spec = SortSpec::new(TaskField::Priority, Order::Desc).and_then(TaskField::ProjectId, Order::Asc);
    let mut expected = tasks.clone();
    expected.sort_by(|x, y| {
        y.priority().cmp(&x.priority()).then(x.project_id().cmp(&y.project_id()))
    });
    assert_eq!(spec.sort(tasks), expected);
}

#[test]
fn comparators_order_absent_values_first() {
    let bare = Project::new("B");
    let with_deadline = Project::new("A").with_deadline(test_now()).with_description("x");
    assert_eq!(ProjectField::Deadline.cmp(&bare, &with_deadline), Relation::Less);
    assert_eq!(ProjectField::Description.cmp(&with_deadline, &bare), Relation::Greater);
    assert_eq!(ProjectField::Name.cmp(&with_deadline, &bare), Relation::Less);
    assert_eq!(ProjectField::Id.cmp(&bare, &bare), Relation::Equal);
    let short = Log::new("p").with_duration(Duration::from_seconds(5));
    let long = Log::new("p").with_duration(Duration::from_seconds(50)).with_comment("ab");
    assert_eq!(LogField::Duration.cmp(&short, &long), Relation::Less);
    assert_eq!(LogField::Comment.cmp(&short, &long), Relation::Less);
    assert_eq!(LogField::Start.cmp(&short, &long), Relation::Equal);
    assert_eq!(loiter::sort::text_order("ab", "abc"), Relation::Less);
    assert_eq!(loiter::sort::text_order("b", "abc"), Relation::Greater);
    assert_eq!(loiter::sort::text_order("é", "z"), Relation::Greater);
}

#[test]
fn passthrough_matches_everything() {
    let now = test_now();
    let spec = FilterSpec::new(ProjectFilter::All);
    assert!(spec.is_passthrough());
    assert!(spec.matches(&Project::new("Anything"), now));
    let still = FilterSpec::new(TaskFilter::All).and_then(TaskFilter::All).and_then(TaskFilter::All);
    assert!(still.is_passthrough());
    assert_eq!(still, FilterSpec::new(TaskFilter::All));
    assert!(still.matches(&Task::new("p", "t"), now));
}

#[test]
fn a_filter_takes_the_place_of_a_passthrough() {
    let ids = ProjectFilter::Ids(strings(&["a"]));
    let spec = FilterSpec::new(ProjectFilter::All).and_then(ids.clone());
    assert_eq!(spec, FilterSpec::new(ids.clone()));
    assert!(!spec.is_passthrough());
    let both = spec.and_then(ProjectFilter::Tags(strings(&["x"])));
    assert_eq!(both, FilterSpec::new(ids).and_then(ProjectFilter::Tags(strings(&["x"]))));
    let now = test_now();
    assert!(both.matches(&Project::new("A").with_tags(strings(&["x", "y"])).unwrap(), now));
    assert!(!both.matches(&Project::new("A").with_tags(strings(&["y"])).unwrap(), now));
    assert!(!both.matches(&Project::new("B").with_tags(strings(&["x"])).unwrap(), now));
}

#[test]
fn today_is_half_open() {
    let now = test_now();
    assert!(TimestampFilter::Today.matches(now, now.today()));
    assert!(!TimestampFilter::Today.matches(now, now.tomorrow()));
    assert!(TimestampFilter::Today.matches(now, stamp(2021, 12, 5, 23, 59, -5)));
    assert!(!TimestampFilter::Today.matches(now, stamp(2021, 12, 4, 23, 59, -5)));
    // The same day seen from another offset.
    assert!(TimestampFilter::Today.matches(now, stamp(2021, 12, 6, 4, 59, 0)));
    assert!(!TimestampFilter::Today.matches(now, stamp(2021, 12, 6, 5, 0, 0)));
}

#[test]
fn timestamp_filters_match_their_spans() {
    // 2021-12-05 was a Sunday.
    let now = test_now();
    assert!(TimestampFilter::Tomorrow.matches(now, stamp(2021, 12, 6, 0, 0, -5)));
    assert!(!TimestampFilter::Tomorrow.matches(now, stamp(2021, 12, 7, 0, 0, -5)));
    assert!(TimestampFilter::Yesterday.matches(now, stamp(2021, 12, 4, 0, 0, -5)));
    assert!(!TimestampFilter::Yesterday.matches(now, stamp(2021, 12, 5, 0, 0, -5)));
    assert!(TimestampFilter::ThisWeek.matches(now, stamp(2021, 11, 29, 0, 0, -5)));
    assert!(!TimestampFilter::ThisWeek.matches(now, stamp(2021, 11, 28, 23, 59, -5)));
    assert!(!TimestampFilter::ThisWeek.matches(now, stamp(2021, 12, 6, 0, 0, -5)));
    assert!(TimestampFilter::Days(2).matches(now, stamp(2021, 12, 3, 19, 42, -5)));
    assert!(!TimestampFilter::Days(2).matches(now, stamp(2021, 12, 3, 19, 41, -5)));
    assert!(!TimestampFilter::Days(2).matches(now, stamp(2021, 12, 3, 0, 0, -5)));
    assert!(TimestampFilter::Days(2).matches(now, stamp(2021, 12, 5, 19, 41, -5)));
    assert!(!TimestampFilter::Days(2).matches(now, now));
    assert!(!TimestampFilter::Days(0).matches(now, stamp(2021, 12, 5, 19, 41, -5)));
    assert!(TimestampFilter::ThisMonth.matches(now, stamp(2021, 12, 1, 0, 0, -5)));
    assert!(!TimestampFilter::ThisMonth.matches(now, stamp(2022, 1, 1, 0, 0, -5)));
    assert!(!TimestampFilter::ThisMonth.matches(now, stamp(2021, 11, 30, 23, 59, -5)));
    assert!(TimestampFilter::ThisYear.matches(now, stamp(2021, 1, 1, 0, 0, -5)));
    assert!(!TimestampFilter::ThisYear.matches(now, stamp(2022, 1, 1, 0, 0, -5)));
    assert!(TimestampFilter::Starting(now).matches(now, now));
    assert!(!TimestampFilter::Before(now).matches(now, now));
    assert!(TimestampFilter::Before(now).matches(now, stamp(2021, 12, 5, 19, 41, -5)));
}

#[test]
fn timestamp_filters_are_read_from_phrases() {
    let now = test_now();
    assert_eq!(TimestampFilter::parse(" This-Week ", now), Ok(TimestampFilter::ThisWeek));
    assert_eq!(TimestampFilter::parse("yst", now), Ok(TimestampFilter::Yesterday));
    assert_eq!(TimestampFilter::parse("month", now), Ok(TimestampFilter::ThisMonth));
    assert_eq!(TimestampFilter::parse("year", now), Ok(TimestampFilter::ThisYear));
    assert_eq!(TimestampFilter::parse("3 days", now), Ok(TimestampFilter::Days(3)));
    assert_eq!(
        TimestampFilter::parse("from 2021-11-04 12:43", now),
        Ok(TimestampFilter::Starting(stamp(2021, 11, 4, 12, 43, -5)))
    );
    assert_eq!(
        TimestampFilter::parse("before yesterday@10:00", now),
        Ok(TimestampFilter::Before(stamp(2021, 12, 4, 10, 0, -5)))
    );
    assert_eq!(
        TimestampFilter::parse("sometime", now),
        Err(Error::InvalidTimestampFilter("sometime".to_string()))
    );
    assert_eq!(
        TimestampFilter::parse("Around Noon", now),
        Err(Error::InvalidTimestampFilter("around noon".to_string()))
    );
    assert_eq!(
        TimestampFilter::parse("x days", now),
        Err(Error::TimestampFilterParsingFailed("invalid digit found in string".to_string()))
    );
    assert_eq!(
        TimestampFilter::parse("70000 days", now),
        Err(Error::TimestampFilterParsingFailed("number too large to fit in target type".to_string()))
    );
    assert_eq!(
        TimestampFilter::parse("from never", now),
        Err(Error::InvalidDateTime("never".to_string()))
    );
}

#[test]
fn duration_filters() {
    let hour = Duration::from_seconds(3600);
    assert_eq!(DurationFilter::from_str("<=1h"), Ok(DurationFilter::LessThanOrEqual(hour)));
    assert_eq!(DurationFilter::from_str(" > 1h "), Ok(DurationFilter::GreaterThan(hour)));
    assert_eq!(DurationFilter::from_str(">= 60m"), Ok(DurationFilter::GreaterThanOrEqual(hour)));
    assert_eq!(DurationFilter::from_str("1h"), Ok(DurationFilter::Equal(hour)));
    assert_eq!(DurationFilter::from_str("== 1h"), Ok(DurationFilter::Equal(hour)));
    assert_eq!(DurationFilter::from_str("= 1h"), Ok(DurationFilter::Equal(hour)));
    assert_eq!(DurationFilter::from_str("<"), Err(Error::InvalidDurationFilter("<".to_string())));
    assert_eq!(
        DurationFilter::from_str("~ 1h "),
        Err(Error::InvalidDurationFilterOp("~".to_string(), "~ 1h".to_string()))
    );
    assert_eq!(DurationFilter::from_str("~ 1x"), Err(Error::InvalidDurationUnit("x".to_string())));
    let half = Duration::from_seconds(1800);
    assert!(DurationFilter::LessThan(hour).matches(half));
    assert!(!DurationFilter::LessThan(hour).matches(hour));
    assert!(DurationFilter::LessThanOrEqual(hour).matches(hour));
    assert!(DurationFilter::GreaterThan(half).matches(hour));
    assert!(!DurationFilter::GreaterThan(hour).matches(hour));
    assert!(DurationFilter::GreaterThanOrEqual(hour).matches(hour));
    assert!(DurationFilter::Equal(hour).matches(hour));
    assert!(!DurationFilter::Equal(hour).matches(half));
}

#[test]
fn project_filters() {
    let now = test_now();
    let p = Project::new("Project 1").with_deadline(stamp(2021, 12, 5, 8, 0, -5)).with_tags(strings(&["Work", "x", "work"])).unwrap();
    assert_eq!(p.id(), "project-1");
    assert_eq!(p.tags(), &strings(&["work", "x"]));
    assert!(ProjectFilter::Ids(strings(&["a", "project-1"])).matches(&p, now));
    assert!(!ProjectFilter::Ids(strings(&[])).matches(&p, now));
    assert!(ProjectFilter::Deadline(TimestampFilter::Today).matches(&p, now));
    assert!(!ProjectFilter::Deadline(TimestampFilter::Tomorrow).matches(&p, now));
    assert!(!ProjectFilter::Deadline(TimestampFilter::Today).matches(&Project::new("x"), now));
    assert!(ProjectFilter::Tags(strings(&["y", "x"])).matches(&p, now));
    assert!(!ProjectFilter::Tags(strings(&["y"])).matches(&p, now));
    assert!(!ProjectFilter::Tags(strings(&[])).matches(&p, now));
    assert!(ProjectFilter::default().matches(&p, now));
}

#[test]
fn task_filters() {
    let now = test_now();
    let t = Task::new("p", "d").with_id(3).with_state("doing").with_priority(2).unwrap();
    let bare = Task::new("p", "d");
    assert!(TaskFilter::Project("p".to_string()).matches(&t, now));
    assert!(!TaskFilter::Project("q".to_string()).matches(&t, now));
    assert!(TaskFilter::Ids(vec![1, 3]).matches(&t, now));
    assert!(!TaskFilter::Ids(vec![1, 3]).matches(&bare, now));
    assert!(TaskFilter::Priority(vec![2]).matches(&t, now));
    assert!(TaskFilter::Priority(vec![10]).matches(&bare, now));
    assert!(TaskFilter::State(strings(&["todo", "doing"])).matches(&t, now));
    assert!(!TaskFilter::State(strings(&["todo"])).matches(&t, now));
    assert!(!TaskFilter::State(strings(&["todo"])).matches(&bare, now));
    assert!(TaskFilter::StateNot("done".to_string()).matches(&t, now));
    assert!(!TaskFilter::StateNot("doing".to_string()).matches(&t, now));
    assert!(TaskFilter::StateNot("doing".to_string()).matches(&bare, now));
    assert!(!TaskFilter::Deadline(TimestampFilter::Today).matches(&t, now));
    assert!(TaskFilter::Deadline(TimestampFilter::Today).matches(&t.clone().with_deadline(now), now));
    assert!(!TaskFilter::Tags(strings(&["a"])).matches(&t, now));
    assert_eq!(bare.priority(), 10);
    assert_eq!(bare.clone().with_priority(0), Err(Error::InvalidTaskPriority(0, 1, 10)));
    assert_eq!(bare.clone().with_priority(11), Err(Error::InvalidTaskPriority(11, 1, 10)));
    assert_eq!(bare.with_tags(strings(&["ok", "not ok"])), Err(Error::TagHasInvalidChars("not ok".to_string())));
}

#[test]
fn log_filters() {
    let now = test_now();
    let l = Log::new("p").with_task_id(4).with_start(stamp(2021, 12, 5, 9, 0, -5)).with_duration(Duration::from_seconds(60));
    let bare = Log::new("p");
    assert!(LogFilter::Project("p".to_string()).matches(&l, now));
    assert!(LogFilter::HasTask.matches(&l, now));
    assert!(!LogFilter::HasTask.matches(&bare, now));
    assert!(LogFilter::Task(vec![4]).matches(&l, now));
    assert!(!LogFilter::Task(vec![5]).matches(&l, now));
    assert!(!LogFilter::Task(vec![4]).matches(&bare, now));
    assert!(LogFilter::Start(TimestampFilter::Today).matches(&l, now));
    assert!(!LogFilter::Start(TimestampFilter::Today).matches(&bare, now));
    assert!(LogFilter::Duration(DurationFilter::from_str("<= 1m").unwrap()).matches(&l, now));
    assert!(!LogFilter::Duration(DurationFilter::from_str("> 1m").unwrap()).matches(&l, now));
    assert!(!LogFilter::Duration(DurationFilter::from_str("1m").unwrap()).matches(&bare, now));
    assert!(!LogFilter::Tags(strings(&["a"])).matches(&l, now));
}

#[test]
fn logs_stop_after_they_start() {
    let start = stamp(2021, 12, 5, 9, 0, -5);
    let stop = stamp(2021, 12, 5, 10, 30, -5);
    let open = Log::new("p").with_start(start);
    assert_eq!(open.stop(), None);
    let closed = open.clone().with_stop(stop).unwrap();
    assert_eq!(closed.duration(), Some(Duration::from_seconds(5400)));
    assert_eq!(closed.stop(), Some(stop));
    assert_eq!(Log::new("p").with_stop(stop), Err(Error::LogWithoutStartCannotStop));
    assert_eq!(Log::new("p").with_start(stop).with_stop(start), Err(Error::LogCannotStopBeforeStart));
    assert_eq!(open.clone().with_stop(start).unwrap().duration(), Some(Duration::zero()));
    assert_eq!(
        open.clone().with_maybe_duration_or_stop(Some(Duration::zero()), Some(stop)),
        Err(Error::CannotAcceptDurationAndStop)
    );
    assert_eq!(open.clone().with_maybe_duration_or_stop(None, None).unwrap(), open);
    assert_eq!(open.clone().with_maybe_stop(None).unwrap(), open);
    assert_eq!(
        open.clone().with_duration_or_stop_or_now(None, None, stop).unwrap().duration(),
        Some(Duration::from_seconds(5400))
    );
    assert_eq!(
        open.clone().with_duration_or_stop_or_now(Some(Duration::from_seconds(1)), None, stop).unwrap().duration(),
        Some(Duration::from_seconds(1))
    );
    let task = Task::new("p", "t").with_id(9);
    let attached = open.clone().with_maybe_task(Some(task.clone()));
    assert_eq!(attached.task_id(), Some(9));
    assert_eq!(attached.task(), Some(&task));
    assert_eq!(attached.with_maybe_task(None).task_id(), None);
}

#[test]
fn task_state_configs_are_checked() {
    let config = TaskStateConfig::default();
    assert_eq!(config.states(), &strings(&["inbox", "todo", "blocked", "doing", "done"]));
    assert_eq!((config.initial(), config.in_progress(), config.done()), ("inbox", "doing", "done"));
    let s = |x: &str| x.to_string();
    assert_eq!(
        TaskStateConfig::new(strings(&["a", "b"]), s("a"), s("b"), s("b")),
        Err(Error::TooFewTaskStates(2, 3))
    );
    assert_eq!(
        TaskStateConfig::new(strings(&["a", "b", "a"]), s("a"), s("b"), s("b")),
        Err(Error::DuplicateTaskStates(strings(&["a", "b", "a"])))
    );
    assert_eq!(
        TaskStateConfig::new(strings(&["a", "b", "c"]), s("a"), s("x"), s("y")),
        Err(Error::InvalidTaskState(s("x"), strings(&["a", "b", "c"])))
    );
    assert_eq!(
        TaskStateConfig::new(strings(&["a", "b", "c"]), s("z"), s("x"), s("y")),
        Err(Error::InvalidTaskState(s("z"), strings(&["a", "b", "c"])))
    );
    let own = TaskStateConfig::new(strings(&["a", "b", "c"]), s("a"), s("b"), s("c")).unwrap();
    assert_eq!(own.validate_or_initial(None), Ok(s("a")));
    assert_eq!(own.validate_or_initial(Some("c")), Ok(s("c")));
    assert_eq!(
        own.validate_or_initial(Some("d")),
        Err(Error::InvalidTaskState(s("d"), strings(&["a", "b", "c"])))
    );
    let project = Project::new("P");
    assert_eq!(project.task_states(&config), strings(&["inbox", "todo", "blocked", "doing", "done"]));
    assert_eq!(project.with_task_state_config(&own).task_states(&config), strings(&["a", "b", "c"]));
    assert_eq!(Config::default().with_task_state_config(&own).task_state_config(), &own);
    let state = State::default().with_active_log("p", Some(1), 2);
    assert_eq!(state.active_log(), Some((s("p"), Some(1), 2)));
    assert_eq!(state.with_no_active_log().active_log(), None);
}

#[test]
fn the_last_days_are_counted_back_from_now() {
    let now = stamp(2021, 11, 4, 17, 0, -4);
    assert!(!TimestampFilter::Days(1).matches(now, stamp(2021, 11, 3, 10, 0, -4)));
    assert!(TimestampFilter::Days(1).matches(now, stamp(2021, 11, 3, 17, 0, -4)));
    assert!(TimestampFilter::Days(1).matches(now, stamp(2021, 11, 3, 21, 0, 0)));
    assert!(TimestampFilter::Days(1).matches(now, stamp(2021, 11, 4, 16, 59, -4)));
    assert!(!TimestampFilter::Days(1).matches(now, stamp(2021, 11, 4, 17, 0, -4)));
    let later = Timestamp::from_unix(now.unix_seconds(), 5, now.offset_seconds()).unwrap();
    let day_before = Timestamp::from_unix(now.unix_seconds() - 86_400, 4, 0).unwrap();
    assert!(!TimestampFilter::Days(1).matches(later, day_before));
    let day_before = Timestamp::from_unix(now.unix_seconds() - 86_400, 5, 0).unwrap();
    assert!(TimestampFilter::Days(1).matches(later, day_before));
    assert!(TimestampFilter::Days(1).matches(later, now));
}
