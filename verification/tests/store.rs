use loiter::storage::{
    chain, join, keep, log_id_from_path, log_ids_in, next_id, task_id_from_path, task_ids_in,
};
use loiter::{
    Config, Error, FilterSpec, Log, LogFilter, NumberError, Project, ProjectFilter, State, Store,
    Task, TaskFilter, TaskStateConfig, Timestamp,
};

fn now() -> Timestamp {
    Timestamp::from_unix(1_636_059_600, 0, -14_400).unwrap()
}

fn strings(v: &[&str]) -> Vec<String> {
    v.iter().map(|s| s.to_string()).collect()
}

fn numbered(ids: &[u32]) -> Vec<Task> {
    ids.iter().map(|id| Task::new("project-1", "t").with_id(*id)).collect()
}

#[test]
fn paths_follow_the_scheme() {
    let store = Store::new("/home/me/.loiter");
    assert_eq!(store.path(), "/home/me/.loiter");
    assert_eq!(store.state_path(), "/home/me/.loiter/state.json");
    assert_eq!(store.config_path(), "/home/me/.loiter/config.json");
    assert_eq!(store.project_path("p"), "/home/me/.loiter/p");
    assert_eq!(store.project_meta_path("p"), "/home/me/.loiter/p/project.json");
    assert_eq!(store.tasks_path("p"), "/home/me/.loiter/p/tasks");
    assert_eq!(store.task_path("p", 1), "/home/me/.loiter/p/tasks/0001");
    assert_eq!(store.task_path("p", 12345), "/home/me/.loiter/p/tasks/12345");
    assert_eq!(store.task_meta_path("p", 42), "/home/me/.loiter/p/tasks/0042/task.json");
    assert_eq!(store.logs_path("p", None), "/home/me/.loiter/p/logs");
    assert_eq!(store.logs_path("p", Some(7)), "/home/me/.loiter/p/tasks/0007");
    assert_eq!(store.log_path("p", None, 1), "/home/me/.loiter/p/logs/00001.json");
    assert_eq!(store.log_path("p", Some(7), 123456), "/home/me/.loiter/p/tasks/0007/123456.json");
    assert_eq!(store.delete_log("p", Some(7), 3), "/home/me/.loiter/p/tasks/0007/00003.json");
    assert_eq!(store.project_lookup_path("Project 1"), "/home/me/.loiter/project-1/project.json");
    assert_eq!(store.save_project(&Project::new("Project 1")), "/home/me/.loiter/project-1/project.json");
    assert_eq!(join("/", "x"), "/x");
    assert_eq!(join("a/", "x"), "a/x");
    assert_eq!(join("", "x"), "x");
}

#[test]
fn paths_agree_with_the_standard_library() {
    for (base, name) in [("/root", "a"), ("/root/", "a"), ("rel/dir", "b.json"), ("", "c")] {
        let expected = std::path::Path::new(base).join(name);
        assert_eq!(join(base, name), expected.to_str().unwrap());
    }
}

#[test]
fn numbers_are_read_from_names() {
    assert_eq!(task_id_from_path("/r/p/tasks/0001"), Ok(1));
    assert_eq!(task_id_from_path("0042"), Ok(42));
    assert_eq!(task_id_from_path("/r/p/tasks/12345"), Ok(12345));
    assert_eq!(
        task_id_from_path("/r/p/tasks/notes"),
        Err(Error::InvalidTaskNumber("/r/p/tasks/notes".to_string(), NumberError::InvalidDigit))
    );
    assert_eq!(
        task_id_from_path("/r/p/tasks/99999999999"),
        Err(Error::InvalidTaskNumber("/r/p/tasks/99999999999".to_string(), NumberError::TooLarge))
    );
    assert_eq!(task_id_from_path("/r/p/tasks/"), Err(Error::InvalidPath("/r/p/tasks/".to_string())));
    assert_eq!(log_id_from_path("/r/p/logs/00001.json"), Ok(1));
    assert_eq!(log_id_from_path("/r/p/logs/123456.json"), Ok(123456));
    assert_eq!(log_id_from_path("/r/p/logs/7"), Ok(7));
    assert_eq!(
        log_id_from_path("/r/p/tasks/0001/task.json"),
        Err(Error::InvalidLogNumber("/r/p/tasks/0001/task.json".to_string(), NumberError::InvalidDigit))
    );
    assert_eq!(
        log_id_from_path("/r/p/logs/.json"),
        Err(Error::InvalidLogNumber("/r/p/logs/.json".to_string(), NumberError::InvalidDigit))
    );
    assert_eq!(log_id_from_path(""), Err(Error::InvalidPath("".to_string())));
}

#[test]
fn names_are_read_as_the_standard_library_reads_them() {
    for p in ["/a/b/00012.json", "a/b/c", "x.tar.gz", ".hidden", "/a/.b.c", "noext", "/a/12.json"] {
        let path = std::path::Path::new(p);
        let stem = path.file_stem().unwrap().to_str().unwrap();
        assert_eq!(log_id_from_path(p).ok(), stem.parse::<u32>().ok(), "{}", p);
        let name = path.file_name().unwrap().to_str().unwrap();
        assert_eq!(task_id_from_path(p).ok(), name.parse::<u32>().ok(), "{}", p);
    }
}

#[test]
fn numbers_survive_the_way_to_a_path_and_back() {
    let store = Store::new("/r");
    for id in [1u32, 9, 10, 9999, 10000, 99999, 100000, u32::MAX] {
        assert_eq!(task_id_from_path(&store.task_path("p", id)), Ok(id));
        assert_eq!(log_id_from_path(&store.log_path("p", None, id)), Ok(id));
        assert_eq!(log_id_from_path(&store.log_path("p", Some(3), id)), Ok(id));
    }
}

#[test]
fn names_that_are_no_numbers_are_passed_over() {
    assert_eq!(task_ids_in(&strings(&["/r/p/tasks/0002", "/r/p/tasks/.git", "/r/p/tasks/0001"])), vec![2, 1]);
    assert_eq!(
        log_ids_in(&strings(&["/r/p/tasks/0001/task.json", "/r/p/tasks/0001/00003.json", "/r/p/tasks/0001/x"])),
        vec![3]
    );
    assert_eq!(task_ids_in(&strings(&[])), Vec::<u32>::new());
}

#[test]
fn a_task_without_a_number_gets_the_next() {
    let store = Store::new("/r");
    let project = Project::new("Project 1");
    let config = Config::default();
    let task = Task::new("project-1", "Some task");
    let saved = store.save_task(&task, &project, &config, &vec![1, 2]).unwrap();
    assert_eq!(saved.id(), Some(3));
    let first = store.save_task(&task, &project, &config, &vec![]).unwrap();
    assert_eq!(first.id(), Some(1));
    assert_eq!(first.state(), Some("inbox"));
}

#[test]
fn a_number_that_was_given_up_is_given_again() {
    let store = Store::new("/r");
    let project = Project::new("Project 1");
    let config = Config::default();
    let task = Task::new("project-1", "Some task");
    let names = task_ids_in(&strings(&["/r/project-1/tasks/0001", "/r/project-1/tasks/0002"]));
    let third = store.save_task(&task, &project, &config, &names).unwrap();
    assert_eq!(third.id(), Some(3));
    let with_third = task_ids_in(&strings(&[
        "/r/project-1/tasks/0001",
        "/r/project-1/tasks/0002",
        &store.task_path("project-1", 3),
    ]));
    assert_eq!(store.save_task(&task, &project, &config, &with_third).unwrap().id(), Some(4));
    // Task 3 is removed again: beside 1 and 2 the next task is 3 once more.
    let again = store.save_task(&task, &project, &config, &names).unwrap();
    assert_eq!(again.id(), Some(3));
    // A gap below the largest number is not filled.
    assert_eq!(store.next_task_id(&vec![1, 5, 2]), 6);
    assert_eq!(next_id(&vec![7, 3], 1), 8);
    assert_eq!(next_id(&vec![], 1), 1);
}

#[test]
fn saving_a_task_checks_its_state() {
    let store = Store::new("/r");
    let config = Config::default();
    let own = TaskStateConfig::new(strings(&["a", "b", "c"]), "a".to_string(), "b".to_string(), "c".to_string()).unwrap();
    let plain = Project::new("Project 1");
    let special = Project::new("Project 1").with_task_state_config(&own);
    let doing = Task::new("project-1", "t").with_state("doing").with_id(4);
    assert_eq!(store.save_task(&doing, &plain, &config, &vec![]).unwrap(), doing);
    assert_eq!(
        store.save_task(&doing, &special, &config, &vec![]),
        Err(Error::InvalidTaskState("doing".to_string(), strings(&["a", "b", "c"])))
    );
    let fresh = Task::new("project-1", "t");
    assert_eq!(store.save_task(&fresh, &special, &config, &vec![]).unwrap().state(), Some("a"));
    let homeless = Task::new("project-1", "t").with_maybe_project_id(None);
    assert_eq!(
        store.save_task(&homeless, &plain, &config, &vec![]),
        Err(Error::TaskMissingProjectId(homeless.clone()))
    );
    let lost = Task::new("project-1", "t").with_maybe_state(None);
    assert_eq!(store.save_task(&lost, &plain, &config, &vec![]).unwrap().id(), Some(1));
}

#[test]
fn saving_a_log_checks_where_it_belongs() {
    let store = Store::new("/r");
    let log = Log::new("p").with_task_id(2);
    let others: Vec<u32> = vec![1, 4];
    assert_eq!(store.save_log(&log, true, true, &others).unwrap().id(), Some(5));
    assert_eq!(store.save_log(&log, true, true, &vec![]).unwrap().id(), Some(1));
    assert_eq!(store.save_log(&log.clone().with_id(2), true, true, &others).unwrap().id(), Some(2));
    assert_eq!(store.save_log(&log, false, true, &others), Err(Error::ProjectNotFound("p".to_string())));
    assert_eq!(store.save_log(&log, true, false, &others), Err(Error::TaskNotFound("p".to_string(), 2)));
    assert_eq!(store.save_log(&Log::new("p"), true, false, &others).unwrap().id(), Some(5));
    let homeless = Log::new("p").with_maybe_project_id(None);
    assert_eq!(store.save_log(&homeless, true, true, &others), Err(Error::LogMissingProjectId(homeless.clone())));
    assert_eq!(store.next_log_id(&others), 5);
}

#[test]
fn renaming_onto_a_project_that_is_there_is_refused() {
    let store = Store::new("/r");
    let renamed = Project::new("Project 1").with_name("Project renamed");
    assert_eq!(
        store.rename_project("project-1", &renamed, true, true),
        Err(Error::ProjectAlreadyExists("project-renamed".to_string()))
    );
    assert_eq!(
        store.rename_project("project-1", &renamed, false, false),
        Err(Error::ProjectNotFound("project-1".to_string()))
    );
    assert_eq!(
        store.rename_project("project-1", &renamed, false, true),
        Err(Error::ProjectNotFound("project-1".to_string()))
    );
    assert_eq!(
        store.rename_project("project-1", &renamed, true, false),
        Ok(("/r/project-1".to_string(), "/r/project-renamed".to_string()))
    );
    assert_eq!(store.remove_project("p", true), Ok("/r/p".to_string()));
    assert_eq!(store.remove_project("p", false), Err(Error::ProjectNotFound("p".to_string())));
}

#[test]
fn documents_get_their_place_back() {
    let store = Store::new("/r");
    let project = Project::new("Project 1");
    assert_eq!(store.project("project-1", Some(project.clone())), Ok(project));
    assert_eq!(store.project("Nope", None), Err(Error::ProjectNotFound("Nope".to_string())));
    let task = Task::new("elsewhere", "t");
    let placed = store.task("project-1", 2, Some(task)).unwrap();
    assert_eq!((placed.project_id(), placed.id()), (Some("project-1"), Some(2)));
    assert_eq!(store.task("p", 2, None), Err(Error::TaskNotFound("p".to_string(), 2)));
    let log = store.log("p", Some(2), 3, Some(Log::new("x"))).unwrap();
    assert_eq!((log.project_id(), log.task_id(), log.id()), (Some("p"), Some(2), Some(3)));
    assert_eq!(store.log("p", None, 3, None), Err(Error::LogNotFound("p".to_string(), None, 3)));
    assert_eq!(store.state(None), (State::default(), true));
    let tracking = State::default().with_active_log("p", None, 1);
    assert_eq!(store.state(Some(tracking.clone())), (tracking, false));
    assert_eq!(store.config(None), (Config::default(), true));
}

#[test]
fn lists_are_filtered_and_chained() {
    let store = Store::new("/r");
    let a = Project::new("A");
    let b = Project::new("B");
    let c = Project::new("C");
    let spec = FilterSpec::new(ProjectFilter::Ids(strings(&["c", "a"])));
    assert_eq!(store.projects(vec![a.clone(), b.clone(), c.clone()], &spec, now()), vec![a.clone(), c.clone()]);
    assert_eq!(keep(vec![a.clone(), b.clone()], &FilterSpec::new(ProjectFilter::All), now()), vec![a, b]);
    let tasks = numbered(&[1, 2, 3]);
    let wanted = FilterSpec::new(TaskFilter::Ids(vec![3, 1]));
    assert_eq!(store.project_tasks(tasks.clone(), &wanted, now()), numbered(&[1, 3]));
    assert_eq!(store.tasks(vec![numbered(&[1]), vec![], numbered(&[2, 3])]), tasks);
    let l1 = Log::new("p").with_id(1);
    let l2 = Log::new("p").with_id(2).with_task_id(1);
    let l3 = Log::new("q").with_id(1);
    assert_eq!(
        store.logs(vec![vec![l1.clone()], vec![l3.clone()]], vec![vec![l2.clone()]]),
        vec![l1.clone(), l3.clone(), l2.clone()]
    );
    assert_eq!(
        store.logs_for_project_or_task(vec![l1, l2.clone(), l3], &FilterSpec::new(LogFilter::HasTask), now()),
        vec![l2]
    );
    assert_eq!(chain(vec![vec![1, 2], vec![], vec![3]]), vec![1, 2, 3]);
}

#[test]
fn directories_under_the_root_name_projects() {
    assert_eq!(
        loiter::storage::project_ids_in(&strings(&["/r/project-1", "/r/.git", "/r/b/", "x"])),
        strings(&["project-1", ".git", "x"])
    );
}

#[test]
fn logs_are_read_from_projects_first_and_tasks_then() {
    let store = Store::new("/r");
    let projects = vec![Project::new("A"), Project::new("B")];
    let tasks = vec![Task::new("a", "t").with_id(2), Task::new("b", "t").with_id(1)];
    assert_eq!(store.task_folders(&projects), strings(&["a", "b"]));
    assert_eq!(
        store.log_folders(&projects, &tasks),
        vec![
            ("a".to_string(), None),
            ("b".to_string(), None),
            ("a".to_string(), Some(2)),
            ("b".to_string(), Some(1)),
        ]
    );
}

fn document_of_project(project: &Project) -> Project {
    project.clone()
}

fn document_of_task(task: &Task) -> Task {
    // What the document holds: everything but project and number.
    let mut doc = Task::new("", task.description())
        .with_maybe_project_id(None)
        .with_maybe_state(task.state().map(str::to_string))
        .with_maybe_deadline(task.deadline())
        .with_tags(task.tags().clone())
        .unwrap();
    if let Some(p) = task.given_priority() {
        doc = doc.with_priority(p).unwrap();
    }
    doc
}

#[test]
fn store_and_load() {
    let store = Store::new("/tmp/loiter");
    let (config, _) = store.config(None);
    let mut disk: std::collections::HashMap<String, Task> = std::collections::HashMap::new();
    let mut projects: std::collections::HashMap<String, Project> = std::collections::HashMap::new();

    let project1 = Project::new("Project 1");
    projects.insert(store.save_project(&project1), document_of_project(&project1));
    assert_eq!(project1.id(), "project-1");
    let found = projects.get(&store.project_lookup_path("project-1")).cloned();
    let loaded_project1 = store.project("project-1", found).unwrap();
    assert_eq!(project1, loaded_project1);

    let task1 = Task::new("project-1", "Some task").with_state(config.task_state_config().initial());
    let names: Vec<String> = disk.keys().cloned().collect();
    let task1 = store.save_task(&task1, &loaded_project1, &config, &task_ids_in(&names)).unwrap();
    disk.insert(store.task_path("project-1", task1.id().unwrap()), document_of_task(&task1));
    assert_eq!(task1.id().unwrap(), 1);
    let loaded_task1 = store.task("project-1", 1, disk.get(&store.task_path("project-1", 1)).cloned()).unwrap();
    assert_eq!(task1, loaded_task1);

    let task2 = Task::new("project-1", "Another task").with_state(config.task_state_config().done());
    let names: Vec<String> = disk.keys().cloned().collect();
    let task2 = store.save_task(&task2, &loaded_project1, &config, &task_ids_in(&names)).unwrap();
    disk.insert(store.task_path("project-1", task2.id().unwrap()), document_of_task(&task2));
    assert_eq!(task2.id().unwrap(), 2);
    let loaded_task2 = store.task("project-1", 2, disk.get(&store.task_path("project-1", 2)).cloned()).unwrap();
    assert_eq!(task2, loaded_task2);
}

#[test]
fn rename_project() {
    let store = Store::new("/tmp/loiter");
    let (config, _) = store.config(None);
    // Directories of projects, each with the documents of its tasks by number.
    let mut disk: std::collections::HashMap<String, (Project, Vec<(u32, Task)>)> =
        std::collections::HashMap::new();

    let project1 = Project::new("Project 1");
    disk.insert(store.project_path(project1.id()), (document_of_project(&project1), vec![]));
    let task1 = Task::new("project-1", "Some task").with_state(config.task_state_config().initial());
    let task1 = store.save_task(&task1, &project1, &config, &vec![]).unwrap();
    disk.get_mut(&store.project_path("project-1")).unwrap().1.push((1, document_of_task(&task1)));

    let project_renamed = project1.with_name("Project renamed");
    let old_exists = disk.contains_key(&store.project_path("project-1"));
    let new_exists = disk.contains_key(&store.project_path(project_renamed.id()));
    let (from, to) = store.rename_project("project-1", &project_renamed, old_exists, new_exists).unwrap();
    let (_, tasks) = disk.remove(&from).unwrap();
    disk.insert(to, (document_of_project(&project_renamed), tasks));
    let found = disk.get(&store.project_path("project-renamed")).map(|d| d.0.clone());
    let loaded_project_renamed = store.project("project-renamed", found).unwrap();
    assert_eq!(project_renamed, loaded_project_renamed);

    // The old task should be part of the renamed project now.
    let doc = disk
        .get(&store.project_path("project-renamed"))
        .and_then(|d| d.1.iter().find(|t| t.0 == 1).map(|t| t.1.clone()));
    let loaded_task1 = store.task("project-renamed", 1, doc).unwrap();
    assert_eq!(loaded_task1.description(), task1.description());

    // We should not be able to find the task under the old project any more.
    let doc = disk
        .get(&store.project_path("project-1"))
        .and_then(|d| d.1.iter().find(|t| t.0 == 1).map(|t| t.1.clone()));
    let r = store.task("project-1", 1, doc);
    assert!(r.is_err());

    // Renaming onto a project that is there leaves everything as it is.
    disk.insert(store.project_path("project-1"), (Project::new("Project 1"), vec![]));
    let back = Project::new("Project renamed").with_name("Project 1");
    assert_eq!(
        store.rename_project("project-renamed", &back, true, disk.contains_key(&store.project_path(back.id()))),
        Err(Error::ProjectAlreadyExists("project-1".to_string()))
    );
}
