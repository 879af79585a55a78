use loiter::cmd::{
    active_log_status, add_log, add_project, add_task, build_log_filter, build_project_filter,
    build_task_filter, cancel_log, list_logs, list_projects, list_tasks, parse_comma_separated,
    remove_project, start_log, start_log_task, stop_log, task_states, update_tasks, AddLog,
    AddProject, AddTask, CancelLog, ListLogs, ListProjects, ListTasks, LogPlace, RemoveProject,
    StartLog, StartLogStep, StopLog, UpdateTask,
};
use loiter::{
    Config, Duration, DurationFilter, Error, FilterSpec, Log, LogFilter, NumberError, Project,
    ProjectFilter, State, Store, Task, TaskFilter, TaskStateConfig, Timestamp, TimestampFilter,
};

fn now() -> Timestamp {
    Timestamp::from_unix(1_636_059_600, 0, -14_400).unwrap()
}

fn strings(v: &[&str]) -> Vec<String> {
    v.iter().map(|s| s.to_string()).collect()
}

fn some(s: &str) -> Option<String> {
    Some(s.to_string())
}

#[test]
fn lists_with_commas() {
    assert_eq!(parse_comma_separated(some(" a, b ,,c")), strings(&["a", "b", "", "c"]));
    assert_eq!(parse_comma_separated(some("")), strings(&[""]));
    assert_eq!(parse_comma_separated(None), Vec::<String>::new());
}

#[test]
fn project_filters_are_built_in_order() {
    assert_eq!(build_project_filter(None, None, None, now()), Ok(FilterSpec::new(ProjectFilter::All)));
    assert_eq!(
        build_project_filter(some("a, b"), some("today"), some("x"), now()),
        Ok(FilterSpec::new(ProjectFilter::Ids(strings(&["a", "b"])))
            .and_then(ProjectFilter::Deadline(TimestampFilter::Today))
            .and_then(ProjectFilter::Tags(strings(&["x"]))))
    );
    assert_eq!(
        build_project_filter(some("a"), some("whenever"), some("x"), now()),
        Err(Error::InvalidTimestampFilter("whenever".to_string()))
    );
}

#[test]
fn task_filters_are_built_in_order() {
    assert_eq!(
        build_task_filter(some("1,2"), some("!done"), some("week"), some("x,y"), now()),
        Ok(FilterSpec::new(TaskFilter::Priority(vec![1, 2]))
            .and_then(TaskFilter::StateNot("done".to_string()))
            .and_then(TaskFilter::Deadline(TimestampFilter::ThisWeek))
            .and_then(TaskFilter::Tags(strings(&["x", "y"]))))
    );
    assert_eq!(
        build_task_filter(None, some("todo, doing"), None, None, now()),
        Ok(FilterSpec::new(TaskFilter::State(strings(&["todo", "doing"]))))
    );
    assert_eq!(
        build_task_filter(None, some("!!done"), None, None, now()),
        Ok(FilterSpec::new(TaskFilter::StateNot("done".to_string())))
    );
    assert_eq!(
        build_task_filter(None, some("!a,b"), None, None, now()),
        Ok(FilterSpec::new(TaskFilter::State(strings(&["!a", "b"]))))
    );
    for word in ["any", "all"] {
        let spec = build_task_filter(None, some(word), None, None, now()).unwrap();
        assert!(spec.is_passthrough());
    }
    assert_eq!(
        build_task_filter(some("1,x"), some("!done"), None, None, now()),
        Err(Error::CannotParseTaskPriority("1,x".to_string(), NumberError::InvalidDigit))
    );
    assert_eq!(
        build_task_filter(some("256"), None, None, None, now()),
        Err(Error::CannotParseTaskPriority("256".to_string(), NumberError::TooLarge))
    );
}

#[test]
fn log_filters_ask_for_a_task_when_tasks_are_filtered() {
    let open = FilterSpec::new(TaskFilter::All);
    let narrowed = FilterSpec::new(TaskFilter::Priority(vec![1]));
    assert_eq!(
        build_log_filter(&open, None, None, None, None, now()),
        Ok(FilterSpec::new(LogFilter::All))
    );
    assert_eq!(
        build_log_filter(&narrowed, None, some("today"), None, None, now()),
        Ok(FilterSpec::new(LogFilter::HasTask).and_then(LogFilter::Start(TimestampFilter::Today)))
    );
    assert_eq!(
        build_log_filter(&narrowed, some("3, 4"), None, some("< 1h"), some("x"), now()),
        Ok(FilterSpec::new(LogFilter::Task(vec![3, 4]))
            .and_then(LogFilter::Duration(DurationFilter::LessThan(Duration::from_seconds(3600))))
            .and_then(LogFilter::Tags(strings(&["x"]))))
    );
    assert_eq!(
        build_log_filter(&open, some("3,"), None, None, None, now()),
        Err(Error::InvalidTaskIds("3,".to_string(), NumberError::Empty))
    );
    assert_eq!(
        build_log_filter(&open, None, None, some("soon"), None, now()),
        Err(Error::InvalidDurationFilter("soon".to_string()))
    );
}

#[test]
fn requests_become_objects() {
    let store = Store::new("/r");
    let add = AddProject {
        name: "Project 1".to_string(),
        maybe_description: some("about"),
        maybe_deadline: Some(now()),
        maybe_tags: some("Work, x"),
    };
    let (project, path) = add_project(&store, &add).unwrap();
    assert_eq!(path, "/r/project-1/project.json");
    assert_eq!(
        project,
        Project::new("Project 1").with_description("about").with_deadline(now()).with_tags(strings(&["work", "x"])).unwrap()
    );
    let bad = AddProject { maybe_tags: some("a b"), ..add.clone() };
    assert_eq!(add_project(&store, &bad), Err(Error::TagHasInvalidChars("a b".to_string())));
    let remove = RemoveProject { id: "project-1".to_string() };
    assert_eq!(remove_project(&store, &remove, true), Ok(("project-1".to_string(), "/r/project-1".to_string())));
    assert_eq!(remove_project(&store, &remove, false), Err(Error::ProjectNotFound("project-1".to_string())));

    let task = AddTask {
        project_id: "project-1".to_string(),
        description: "do".to_string(),
        priority: 3,
        maybe_state: None,
        maybe_deadline: None,
        maybe_tags: None,
    };
    let existing: Vec<u32> = vec![1, 2];
    let saved = add_task(&store, &task, &project, &Config::default(), &existing).unwrap();
    assert_eq!((saved.id(), saved.state(), saved.priority()), (Some(3), Some("inbox"), 3));
    assert_eq!(
        add_task(&store, &AddTask { priority: 0, ..task.clone() }, &project, &Config::default(), &existing),
        Err(Error::InvalidTaskPriority(0, 1, 10))
    );
    assert_eq!(
        add_task(&store, &AddTask { maybe_state: some("nope"), ..task }, &project, &Config::default(), &existing),
        Err(Error::InvalidTaskState("nope".to_string(), strings(&["inbox", "todo", "blocked", "doing", "done"])))
    );
}

#[test]
fn updates_replace_what_they_give() {
    let task = Task::new("p", "old").with_id(1).with_state("todo");
    let update = UpdateTask {
        project_id: "p".to_string(),
        task_ids: "1, 2".to_string(),
        maybe_description: some("new"),
        maybe_priority: Some(2),
        maybe_state: None,
        maybe_deadline: None,
        maybe_tags: some("a"),
    };
    let updated = update.apply(&task).unwrap();
    assert_eq!(
        updated,
        Task::new("p", "new").with_id(1).with_state("todo").with_priority(2).unwrap().with_tags(strings(&["a"])).unwrap()
    );
    assert_eq!(
        UpdateTask { maybe_priority: Some(11), ..update.clone() }.apply(&task),
        Err(Error::InvalidTaskPriority(11, 1, 10))
    );
    assert_eq!(
        update_tasks(&update),
        Ok((
            FilterSpec::new(ProjectFilter::Ids(strings(&["p"]))),
            FilterSpec::new(TaskFilter::Ids(vec![1, 2]))
        ))
    );
    assert_eq!(
        update_tasks(&UpdateTask { task_ids: "1,two".to_string(), ..update }),
        Err(Error::InvalidTaskIds("1,two".to_string(), NumberError::InvalidDigit))
    );
}

#[test]
fn logs_are_added_and_started() {
    let store = Store::new("/r");
    let start = Timestamp::from_unix(1_636_050_000, 0, -14_400).unwrap();
    let add = AddLog {
        project_id: "p".to_string(),
        maybe_task_id: Some(1),
        maybe_start: Some(start),
        maybe_stop: Some(now()),
        maybe_duration: None,
        maybe_comment: some("c"),
        maybe_tags: some("x"),
    };
    let log = add_log(&store, &add, true, true, &vec![]).unwrap();
    assert_eq!(add_log(&store, &add, true, true, &vec![3, 9]).unwrap().id(), Some(10));
    assert_eq!((log.id(), log.duration(), log.comment()), (Some(1), Some(Duration::from_seconds(9600)), Some("c")));
    assert_eq!(
        add_log(&store, &AddLog { maybe_duration: Some(Duration::zero()), ..add.clone() }, true, true, &vec![]),
        Err(Error::CannotAcceptDurationAndStop)
    );
    assert_eq!(add_log(&store, &add, true, false, &vec![]), Err(Error::TaskNotFound("p".to_string(), 1)));

    let begin = StartLog {
        project_id: "p".to_string(),
        maybe_task_id: Some(1),
        start,
        maybe_comment: None,
        maybe_tags: None,
    };
    let place = |project_exists: bool, sibling_ids: Vec<u32>| LogPlace {
        project_exists,
        task_exists: true,
        sibling_ids,
    };
    // Nothing is tracked: the place of the log is looked up, then the log is written.
    match start_log(&store, &begin, State::default(), None).unwrap() {
        StartLogStep::Look(project_id, task_id) => assert_eq!((project_id.as_str(), task_id), ("p", Some(1))),
        other => panic!("{:?}", other),
    }
    match start_log(&store, &begin, State::default(), Some(&place(true, vec![1]))).unwrap() {
        StartLogStep::Write(started, state) => {
            assert_eq!((started.id(), started.start(), started.duration()), (Some(2), Some(start), None));
            assert_eq!(state.active_log(), Some(("p".to_string(), Some(1), 2)));
        }
        other => panic!("{:?}", other),
    }
    match start_log(&store, &begin, State::default(), Some(&place(false, vec![]))) {
        Err(e) => assert_eq!(e, Error::ProjectNotFound("p".to_string())),
        other => panic!("{:?}", other),
    }
    // A log is tracked: it is stopped first, whatever the request and whatever was found.
    let tracking = State::default().with_active_log("q", None, 7);
    let unsound = StartLog { maybe_tags: some("not a tag"), ..begin.clone() };
    for found in [None, Some(place(true, vec![1]))] {
        for request in [&begin, &unsound] {
            match start_log(&store, request, tracking.clone(), found.as_ref()).unwrap() {
                StartLogStep::StopFirst(project_id, task_id, id, stop) => {
                    assert_eq!((project_id.as_str(), task_id, id), ("q", None, 7));
                    assert_eq!(stop_log(&stop, &tracking), Ok(("q".to_string(), None, 7, true)));
                    let open = Log::new("q").with_id(7).with_start(start);
                    assert!(stop.apply(open, now()).unwrap().duration().is_some());
                }
                other => panic!("{:?}", other),
            }
        }
    }
    match start_log(&store, &unsound, State::default(), None) {
        Err(e) => assert_eq!(e, Error::TagHasInvalidChars("not a tag".to_string())),
        other => panic!("{:?}", other),
    }
    let own = TaskStateConfig::new(strings(&["a", "b", "c"]), "a".to_string(), "b".to_string(), "c".to_string()).unwrap();
    let task = Task::new("p", "t").with_id(1);
    assert_eq!(start_log_task(task.clone(), &Project::new("p"), &Config::default()).state(), Some("doing"));
    assert_eq!(
        start_log_task(task, &Project::new("p").with_task_state_config(&own), &Config::default()).state(),
        Some("b")
    );
}

#[test]
fn logs_are_stopped_and_cancelled() {
    let start = Timestamp::from_unix(1_636_050_000, 0, -14_400).unwrap();
    let tracking = State::default().with_active_log("p", None, 7);
    let idle = State::default();
    let stop = StopLog {
        maybe_project_id: None,
        maybe_task_id: None,
        maybe_id: None,
        maybe_stop_time: None,
        maybe_duration: None,
        maybe_comment: some("done"),
        maybe_tags: None,
    };
    assert_eq!(stop_log(&stop, &tracking), Ok(("p".to_string(), None, 7, true)));
    assert_eq!(stop_log(&stop, &idle), Err(Error::NoActiveLog));
    let named = StopLog { maybe_project_id: some("q"), maybe_task_id: Some(2), maybe_id: Some(3), ..stop.clone() };
    assert_eq!(stop_log(&named, &tracking), Ok(("q".to_string(), Some(2), 3, false)));
    let half = StopLog { maybe_project_id: some("q"), ..stop.clone() };
    assert_eq!(stop_log(&half, &tracking), Err(Error::BothProjectAndLogIdRequired));
    let other_half = StopLog { maybe_id: Some(1), ..stop.clone() };
    assert_eq!(stop_log(&other_half, &tracking), Err(Error::BothProjectAndLogIdRequired));

    let open = Log::new("p").with_id(7).with_start(start).with_comment("before");
    let stopped = stop.apply(open.clone(), now()).unwrap();
    assert_eq!((stopped.duration(), stopped.comment()), (Some(Duration::from_seconds(9600)), Some("done")));
    let timed = StopLog { maybe_duration: Some(Duration::from_seconds(5)), maybe_comment: None, maybe_tags: some("t"), ..stop.clone() };
    let stopped = timed.apply(open.clone(), now()).unwrap();
    assert_eq!((stopped.duration(), stopped.comment(), stopped.tags()), (Some(Duration::from_seconds(5)), Some("before"), &strings(&["t"])));
    assert_eq!(stop.apply(Log::new("p"), now()), Err(Error::LogWithoutStartCannotStop));

    let cancel = CancelLog { maybe_project_id: None, maybe_task_id: None, maybe_id: None };
    assert_eq!(cancel_log(&cancel, &tracking), Ok(("p".to_string(), None, 7, true)));
    assert_eq!(cancel_log(&cancel, &idle), Err(Error::NoActiveLog));
    let status = active_log_status(open.clone(), now()).unwrap();
    assert_eq!((status.log, status.active_for), (open, Duration::from_seconds(9600)));
    assert!(active_log_status(Log::new("p"), now()).is_none());
}

#[test]
fn listings_are_sorted_as_asked() {
    let a = Project::new("A");
    let b = Project::new("B");
    let params = ListProjects { detailed: false, maybe_deadline_filter: None, maybe_tags_filter: None, sort: "name:desc".to_string() };
    assert_eq!(list_projects(vec![a.clone(), b.clone()], &params), Ok(vec![b.clone(), a.clone()]));
    let wrong = ListProjects { sort: "size".to_string(), ..params };
    assert_eq!(list_projects(vec![a, b], &wrong), Err(Error::UnrecognizedProjectField("size".to_string())));

    let t1 = Task::new("b", "x").with_id(1).with_priority(2).unwrap();
    let t2 = Task::new("a", "y").with_id(2).with_priority(2).unwrap();
    let t3 = Task::new("a", "z").with_id(3).with_priority(1).unwrap();
    let tasks = ListTasks {
        maybe_project_ids: None,
        maybe_project_deadline_filter: None,
        maybe_project_tags_filter: None,
        maybe_priority_filter: None,
        state_filter: "!done".to_string(),
        maybe_deadline_filter: None,
        maybe_tags_filter: None,
        sort: "priority,project,id".to_string(),
    };
    assert_eq!(list_tasks(vec![t1.clone(), t2.clone(), t3.clone()], &tasks), Ok(vec![t3, t2, t1]));

    let l1 = Log::new("p").with_id(1).with_duration(Duration::from_seconds(9));
    let l2 = Log::new("p").with_id(2).with_duration(Duration::from_seconds(3));
    let logs = ListLogs {
        maybe_project_ids: None,
        maybe_task_ids_filter: None,
        detailed: false,
        maybe_project_deadline_filter: None,
        maybe_project_tags_filter: None,
        maybe_task_priority_filter: None,
        maybe_task_state_filter: None,
        maybe_task_deadline_filter: None,
        maybe_task_tags_filter: None,
        start_filter: "today".to_string(),
        maybe_duration_filter: None,
        maybe_tags_filter: None,
        sort: "duration".to_string(),
    };
    assert_eq!(list_logs(vec![l1.clone(), l2.clone()], &logs), Ok(vec![l2, l1]));
}

#[test]
fn states_come_from_the_project_or_the_configuration() {
    let own = TaskStateConfig::new(strings(&["a", "b", "c"]), "a".to_string(), "b".to_string(), "c".to_string()).unwrap();
    let config = Config::default();
    assert_eq!(task_states(&config, None), strings(&["inbox", "todo", "blocked", "doing", "done"]));
    assert_eq!(task_states(&config, Some(&Project::new("p"))), strings(&["inbox", "todo", "blocked", "doing", "done"]));
    assert_eq!(task_states(&config, Some(&Project::new("p").with_task_state_config(&own))), strings(&["a", "b", "c"]));
}

#[test]
fn the_remote_needs_a_repository() {
    let store = Store::new("/r");
    let init = loiter::cmd::RemoteInit { branch: "main".to_string(), origin: "o".to_string() };
    assert_eq!(loiter::cmd::remote_init(&store, &init, false), Ok("/r".to_string()));
    assert_eq!(
        loiter::cmd::remote_init(&store, &init, true),
        Err(Error::RemoteAlreadyInitialized("/r".to_string()))
    );
    assert_eq!(loiter::cmd::remote_push(&store, true), Ok("/r".to_string()));
    assert_eq!(loiter::cmd::remote_push(&store, false), Err(Error::NotRemote("/r".to_string())));
    assert_eq!(loiter::cmd::remote_pull(&store, false), Err(Error::NotRemote("/r".to_string())));
}
