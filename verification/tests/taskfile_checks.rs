use sealed_infra::str_map::StrMap;
use sealed_infra::task::{
    check_task, default_task_cache, default_task_mount_readonly, image_name, MappingPath, Task,
    DEFAULT_LOCATION, DEFAULT_USER,
};
use sealed_infra::taskfile::{
    check_dependencies, check_task_file, command, default_location, default_user, environment,
    location, user, TaskFile,
};

fn plain_task() -> Task {
    Task {
        description: None,
        dependencies: vec![],
        cache: true,
        environment: StrMap::new(),
        input_paths: vec![],
        excluded_input_paths: vec![],
        output_paths: vec![],
        output_paths_on_failure: vec![],
        mount_paths: vec![],
        mount_readonly: false,
        ports: vec![],
        location: None,
        user: None,
        command: String::new(),
        command_prefix: None,
        extra_docker_arguments: vec![],
    }
}

fn task_with_dependencies(dependencies: &[&str]) -> Task {
    Task {
        dependencies: dependencies.iter().map(|d| (*d).to_owned()).collect(),
        ..plain_task()
    }
}

fn file_with(default: Option<&str>, tasks: StrMap<Task>) -> TaskFile {
    TaskFile {
        image: "encom:os-12".to_owned(),
        default: default.map(|d| d.to_owned()),
        location: DEFAULT_LOCATION.to_owned(),
        user: DEFAULT_USER.to_owned(),
        command_prefix: String::new(),
        tasks,
    }
}

fn variables(names: &[&str]) -> StrMap<Option<String>> {
    let mut m = StrMap::new();
    for n in names {
        m.insert((*n).to_owned(), None);
    }
    m
}

fn values(pairs: &[(&str, &str)]) -> StrMap<String> {
    let mut m = StrMap::new();
    for (k, v) in pairs {
        m.insert((*k).to_owned(), (*v).to_owned());
    }
    m
}

#[test]
fn check_dependencies_valid_default() {
    let mut tasks = StrMap::new();
    tasks.insert("foo".to_owned(), task_with_dependencies(&[]));
    let task_file = file_with(Some("foo"), tasks);
    assert!(check_dependencies(&task_file).is_ok());
}

#[test]
fn check_dependencies_invalid_default() {
    let mut tasks = StrMap::new();
    tasks.insert("foo".to_owned(), task_with_dependencies(&[]));
    let task_file = file_with(Some("bar"), tasks);
    let result = check_dependencies(&task_file);
    assert!(result.is_err());
    assert!(result.unwrap_err().message().contains("bar"));
}

#[test]
fn check_dependencies_empty() {
    let task_file = file_with(None, StrMap::new());
    assert!(check_dependencies(&task_file).is_ok());
}

#[test]
fn check_dependencies_single() {
    let mut tasks = StrMap::new();
    tasks.insert("foo".to_owned(), task_with_dependencies(&[]));
    let task_file = file_with(None, tasks);
    assert!(check_dependencies(&task_file).is_ok());
}

#[test]
fn check_task_dependencies_nonempty() {
    let mut tasks = StrMap::new();
    tasks.insert("foo".to_owned(), task_with_dependencies(&[]));
    tasks.insert("bar".to_owned(), task_with_dependencies(&["foo"]));
    let task_file = file_with(None, tasks);
    assert!(check_dependencies(&task_file).is_ok());
}

#[test]
fn check_dependencies_nonexistent() {
    let mut tasks = StrMap::new();
    tasks.insert("foo".to_owned(), task_with_dependencies(&[]));
    tasks.insert("bar".to_owned(), task_with_dependencies(&["foo", "baz"]));
    let task_file = file_with(None, tasks);
    let result = check_dependencies(&task_file);
    assert!(result.is_err());
    assert!(result.unwrap_err().message().contains("baz"));
}

#[test]
fn check_dependencies_cycle_1() {
    let mut tasks = StrMap::new();
    tasks.insert("foo".to_owned(), task_with_dependencies(&["foo"]));
    let task_file = file_with(None, tasks);
    let result = check_dependencies(&task_file);
    assert!(result.is_err());
    assert!(result.unwrap_err().message().contains("cyclic"));
}

#[test]
fn check_dependencies_cycle_2() {
    let mut tasks = StrMap::new();
    tasks.insert("foo".to_owned(), task_with_dependencies(&["bar"]));
    tasks.insert("bar".to_owned(), task_with_dependencies(&["foo"]));
    let task_file = file_with(None, tasks);
    let result = check_dependencies(&task_file);
    assert!(result.is_err());
    assert!(result.unwrap_err().message().contains("cyclic"));
}

#[test]
fn check_dependencies_cycle_3() {
    let mut tasks = StrMap::new();
    tasks.insert("foo".to_owned(), task_with_dependencies(&["baz"]));
    tasks.insert("bar".to_owned(), task_with_dependencies(&["foo"]));
    tasks.insert("baz".to_owned(), task_with_dependencies(&["bar"]));
    let task_file = file_with(None, tasks);
    let result = check_dependencies(&task_file);
    assert!(result.is_err());
    assert!(result.unwrap_err().message().contains("cyclic"));
}

#[test]
fn check_dependencies_cycle_message_names_the_cycle() {
    let mut tasks = StrMap::new();
    tasks.insert("foo".to_owned(), task_with_dependencies(&["bar"]));
    tasks.insert("bar".to_owned(), task_with_dependencies(&["foo"]));
    let task_file = file_with(None, tasks);
    let message = check_dependencies(&task_file).unwrap_err().message();
    assert!(message.contains("`foo`"));
    assert!(message.contains("`bar`"));
}

#[test]
fn check_task_environment_ok() {
    let task = Task { environment: variables(&["corge", "grault", "garply"]), ..plain_task() };
    assert!(check_task("foo", &task).is_ok());
}

#[test]
fn check_task_environment_equals() {
    let task = Task { environment: variables(&["corge", "gra=ult", "garply"]), ..plain_task() };
    let result = check_task("foo", &task);
    assert!(result.is_err());
    assert!(result.unwrap_err().message().contains('='));
}

#[test]
fn check_task_paths_ok() {
    let task = Task {
        cache: false,
        input_paths: vec!["bar".to_owned()],
        excluded_input_paths: vec!["baz".to_owned()],
        output_paths: vec!["qux".to_owned()],
        output_paths_on_failure: vec!["quux".to_owned()],
        mount_paths: vec![
            MappingPath::new("quuy", "quuz"),
            MappingPath::new("quuy", "/quuz"),
            MappingPath::new("quuy", "/quuz"),
            MappingPath::new("/quuy", "/quuz"),
        ],
        location: Some("/corge".to_owned()),
        ..plain_task()
    };
    assert!(check_task("foo", &task).is_ok());
}

#[test]
fn check_task_paths_absolute_input_paths() {
    let task = Task { input_paths: vec!["/bar".to_owned()], ..plain_task() };
    let result = check_task("foo", &task);
    assert!(result.is_err());
    assert!(result.unwrap_err().message().contains("/bar"));
}

#[test]
fn check_task_paths_absolute_excluded_input_paths() {
    let task = Task { excluded_input_paths: vec!["/bar".to_owned()], ..plain_task() };
    let result = check_task("foo", &task);
    assert!(result.is_err());
    assert!(result.unwrap_err().message().contains("/bar"));
}

#[test]
fn check_task_paths_absolute_output_paths() {
    let task = Task { cache: false, output_paths: vec!["/bar".to_owned()], ..plain_task() };
    let result = check_task("foo", &task);
    assert!(result.is_err());
    assert!(result.unwrap_err().message().contains("/bar"));
}

#[test]
fn check_task_paths_absolute_output_paths_on_failure() {
    let task =
        Task { cache: false, output_paths_on_failure: vec!["/bar".to_owned()], ..plain_task() };
    let result = check_task("foo", &task);
    assert!(result.is_err());
    assert!(result.unwrap_err().message().contains("/bar"));
}

#[test]
fn check_task_paths_mount_paths_comma() {
    let task = Task { mount_paths: vec![MappingPath::new("bar,baz", "bar,baz")], ..plain_task() };
    let result = check_task("foo", &task);
    assert!(result.is_err());
    assert!(result.unwrap_err().message().contains("bar,baz"));
}

#[test]
fn check_task_paths_relative_location() {
    let task = Task { location: Some("code".to_owned()), ..plain_task() };
    let result = check_task("foo", &task);
    assert!(result.is_err());
    assert!(result.unwrap_err().message().contains("code"));
}

#[test]
fn check_task_caching_enabled_with_mount_paths() {
    let task = Task { mount_paths: vec![MappingPath::new("bar", "bar")], ..plain_task() };
    let result = check_task("foo", &task);
    assert!(result.is_err());
    assert!(result.unwrap_err().message().contains("mount_paths"));
}

#[test]
fn check_task_caching_disabled_with_mount_paths() {
    let task = Task {
        cache: false,
        mount_paths: vec![MappingPath::new("bar", "bar")],
        ports: vec!["3000:80".to_owned()],
        ..plain_task()
    };
    assert!(check_task("foo", &task).is_ok());
}

#[test]
fn check_task_caching_enabled_with_ports() {
    let task = Task { ports: vec!["3000:80".to_owned()], ..plain_task() };
    let result = check_task("foo", &task);
    assert!(result.is_err());
    assert!(result.unwrap_err().message().contains("caching"));
}

#[test]
fn check_task_caching_disabled_with_ports() {
    let task = Task { cache: false, ports: vec!["3000:80".to_owned()], ..plain_task() };
    assert!(check_task("foo", &task).is_ok());
}

#[test]
fn check_task_caching_enabled_with_extra_docker_arguments() {
    let task = Task {
        extra_docker_arguments: vec!["--cpus".to_owned(), "4".to_owned()],
        ..plain_task()
    };
    let result = check_task("foo", &task);
    assert!(result.is_err());
    assert!(result.unwrap_err().message().contains("caching"));
}

#[test]
fn check_task_caching_disabled_with_extra_docker_arguments() {
    let task = Task {
        cache: false,
        extra_docker_arguments: vec!["--cpus".to_owned(), "4".to_owned()],
        ..plain_task()
    };
    assert!(check_task("foo", &task).is_ok());
}

#[test]
fn check_task_relative_location_message() {
    let task = Task { location: Some("code".to_owned()), ..plain_task() };
    assert_eq!(
        check_task("foo", &task).unwrap_err().message(),
        "Failed to run command: Task `foo` has a relative `location`: `code`. None"
    );
}

#[test]
fn environment_empty() {
    let task = plain_task();
    let result = environment(&task, &StrMap::new()).unwrap();
    assert_eq!(result, StrMap::new());
}

#[test]
fn environment_default_overridden() {
    let mut env_map = StrMap::new();
    env_map.insert("foo1".to_owned(), Some("bar".to_owned()));
    let task = Task { environment: env_map, ..plain_task() };
    let expected = values(&[("foo1", "baz")]);
    let process = values(&[("foo1", "baz")]);
    assert_eq!(process.get("foo1"), Some(&"baz".to_owned()));
    assert_eq!(environment(&task, &process), Ok(expected));
}

#[test]
fn environment_default_not_overridden() {
    let mut env_map = StrMap::new();
    env_map.insert("foo2".to_owned(), Some("bar".to_owned()));
    let task = Task { environment: env_map, ..plain_task() };
    let expected = values(&[("foo2", "bar")]);
    let process = StrMap::new();
    assert!(process.get("foo2").is_none());
    assert_eq!(environment(&task, &process), Ok(expected));
}

#[test]
fn environment_missing() {
    let mut env_map = StrMap::new();
    env_map.insert("foo3".to_owned(), None);
    let task = Task { environment: env_map, ..plain_task() };
    let process = StrMap::new();
    assert!(process.get("foo3").is_none());
    let result = environment(&task, &process);
    assert!(result.is_err());
    assert_eq!(result.unwrap_err()[0].to_owned(), "foo3");
}

#[test]
fn location_default() {
    let mut tasks = StrMap::new();
    tasks.insert("foo".to_owned(), plain_task());
    let task_file = file_with(None, tasks);
    assert_eq!(location(&task_file, task_file.tasks.get("foo").unwrap()), DEFAULT_LOCATION);
}

#[test]
fn location_override() {
    let mut tasks = StrMap::new();
    tasks.insert("foo".to_owned(), Task { location: Some("/bar".to_owned()), ..plain_task() });
    let task_file = file_with(None, tasks);
    assert_eq!(location(&task_file, task_file.tasks.get("foo").unwrap()), "/bar");
}

#[test]
fn user_default() {
    let mut tasks = StrMap::new();
    tasks.insert("foo".to_owned(), plain_task());
    let task_file = file_with(None, tasks);
    assert_eq!(user(&task_file, task_file.tasks.get("foo").unwrap()), DEFAULT_USER.to_owned());
}

#[test]
fn user_override() {
    let mut tasks = StrMap::new();
    tasks.insert("foo".to_owned(), Task { user: Some("bar".to_owned()), ..plain_task() });
    let task_file = file_with(None, tasks);
    assert_eq!(user(&task_file, task_file.tasks.get("foo").unwrap()), "bar");
}

#[test]
fn command_default_prefix_default() {
    let mut tasks = StrMap::new();
    tasks.insert("foo".to_owned(), plain_task());
    let task_file = TaskFile {
        command_prefix: "set -euxo pipefail".to_owned(),
        ..file_with(None, tasks)
    };
    assert_eq!(
        command(&task_file, task_file.tasks.get("foo").unwrap()),
        "set -euxo pipefail".to_owned()
    );
}

#[test]
fn command_override_prefix_default() {
    let mut tasks = StrMap::new();
    tasks.insert("foo".to_owned(), Task { command: "echo hello".to_owned(), ..plain_task() });
    let task_file = file_with(None, tasks);
    assert_eq!(command(&task_file, task_file.tasks.get("foo").unwrap()), "echo hello".to_owned());
}

#[test]
fn command_default_prefix_override() {
    let mut tasks = StrMap::new();
    tasks.insert(
        "foo".to_owned(),
        Task { command_prefix: Some("set -euxo pipefail".to_owned()), ..plain_task() },
    );
    let task_file = file_with(None, tasks);
    assert_eq!(
        command(&task_file, task_file.tasks.get("foo").unwrap()),
        "set -euxo pipefail".to_owned()
    );
}

#[test]
fn command_override_prefix_override() {
    let mut tasks = StrMap::new();
    tasks.insert(
        "foo".to_owned(),
        Task {
            command: "echo hello".to_owned(),
            command_prefix: Some("set -euxo pipefail".to_owned()),
            ..plain_task()
        },
    );
    let task_file = file_with(None, tasks);
    assert_eq!(
        command(&task_file, task_file.tasks.get("foo").unwrap()),
        "set -euxo pipefail\necho hello".to_owned()
    );
}

fn taskfile_with_task(foo_task: Task) -> TaskFile {
    let mut tasks = StrMap::new();
    tasks.insert("foo".to_owned(), foo_task);
    file_with(None, tasks)
}

fn taskfile_with_tasks(foo_task: Task, bar_task: Task) -> TaskFile {
    let mut tasks = StrMap::new();
    tasks.insert("foo".to_owned(), foo_task);
    tasks.insert("bar".to_owned(), bar_task);
    file_with(None, tasks)
}

fn name_of(taskfile: &TaskFile, task: &str, previous: &str, files: &str, env: &StrMap<String>) -> String {
    image_name(previous, "task", taskfile, taskfile.tasks.get(task).unwrap(), files, env)
}

#[test]
fn image_name_noop() {
    let task = Task { environment: StrMap::new(), ..plain_task() };
    let taskfile = taskfile_with_task(task);
    assert_eq!("corge", name_of(&taskfile, "foo", "corge", "grault", &StrMap::new()));
}

#[test]
fn image_name_pure() {
    let task = Task {
        environment: variables(&["foo"]),
        input_paths: vec!["flob".to_owned()],
        excluded_input_paths: vec!["thud".to_owned()],
        command: "echo wibble".to_owned(),
        ..plain_task()
    };
    let taskfile = taskfile_with_task(task);
    let full_environment = values(&[("foo", "qux")]);
    assert_eq!(
        name_of(&taskfile, "foo", "corge", "grault", &full_environment),
        name_of(&taskfile, "foo", "corge", "grault", &full_environment)
    );
}

#[test]
fn image_name_previous_image() {
    let task = Task { command: "echo wibble".to_owned(), ..plain_task() };
    let taskfile = taskfile_with_task(task);
    assert_ne!(
        name_of(&taskfile, "foo", "foo", "grault", &StrMap::new()),
        name_of(&taskfile, "foo", "bar", "grault", &StrMap::new())
    );
}

#[test]
fn image_name_environment_order() {
    let task1 = Task {
        environment: variables(&["foo", "bar"]),
        command: "echo wibble".to_owned(),
        ..plain_task()
    };
    let task2 = Task {
        environment: variables(&["bar", "foo"]),
        command: "echo wibble".to_owned(),
        ..plain_task()
    };
    let taskfile = taskfile_with_tasks(task1, task2);
    let full_environment = values(&[("foo", "qux"), ("bar", "fum")]);
    assert_eq!(
        name_of(&taskfile, "foo", "corge", "grault", &full_environment),
        name_of(&taskfile, "bar", "corge", "grault", &full_environment)
    );
}

#[test]
fn image_name_environment_keys() {
    let task1 = Task {
        environment: variables(&["foo"]),
        command: "echo wibble".to_owned(),
        ..plain_task()
    };
    let task2 = Task {
        environment: variables(&["bar"]),
        command: "echo wibble".to_owned(),
        ..plain_task()
    };
    let taskfile = taskfile_with_tasks(task1, task2);
    let full_environment = values(&[("foo", "qux"), ("bar", "fum")]);
    assert_ne!(
        name_of(&taskfile, "foo", "corge", "grault", &full_environment),
        name_of(&taskfile, "bar", "corge", "grault", &full_environment)
    );
}

#[test]
fn image_name_environment_values() {
    let task = Task {
        environment: variables(&["foo"]),
        command: "echo wibble".to_owned(),
        ..plain_task()
    };
    let taskfile = taskfile_with_task(task);
    assert_ne!(
        name_of(&taskfile, "foo", "corge", "grault", &values(&[("foo", "bar")])),
        name_of(&taskfile, "foo", "corge", "grault", &values(&[("foo", "baz")]))
    );
}

#[test]
fn image_name_input_files_hash() {
    let task = Task {
        input_paths: vec!["flob".to_owned()],
        excluded_input_paths: vec!["thud".to_owned()],
        command: "echo wibble".to_owned(),
        ..plain_task()
    };
    let taskfile = taskfile_with_task(task);
    assert_ne!(
        name_of(&taskfile, "foo", "corge", "foo", &StrMap::new()),
        name_of(&taskfile, "foo", "corge", "bar", &StrMap::new())
    );
}

#[test]
fn image_name_location() {
    let task1 =
        Task { location: Some("/foo".to_owned()), command: "echo wibble".to_owned(), ..plain_task() };
    let task2 =
        Task { location: Some("/bar".to_owned()), command: "echo wibble".to_owned(), ..plain_task() };
    let taskfile = taskfile_with_tasks(task1, task2);
    assert_ne!(
        name_of(&taskfile, "foo", "corge", "grault", &StrMap::new()),
        name_of(&taskfile, "bar", "corge", "grault", &StrMap::new())
    );
}

#[test]
fn image_name_user() {
    let task1 = Task { user: Some("foo".to_owned()), command: "echo wibble".to_owned(), ..plain_task() };
    let task2 = Task { user: Some("bar".to_owned()), command: "echo wibble".to_owned(), ..plain_task() };
    let taskfile = taskfile_with_tasks(task1, task2);
    assert_ne!(
        name_of(&taskfile, "foo", "corge", "grault", &StrMap::new()),
        name_of(&taskfile, "bar", "corge", "grault", &StrMap::new())
    );
}

#[test]
fn image_name_command() {
    let task1 = Task { command: "echo foo".to_owned(), ..plain_task() };
    let task2 = Task { command: "echo bar".to_owned(), ..plain_task() };
    let taskfile = taskfile_with_tasks(task1, task2);
    assert_ne!(
        name_of(&taskfile, "foo", "corge", "grault", &StrMap::new()),
        name_of(&taskfile, "bar", "corge", "grault", &StrMap::new())
    );
}

#[test]
fn image_name_has_repository_and_task_prefix() {
    let task = Task { command: "echo foo".to_owned(), ..plain_task() };
    let taskfile = taskfile_with_task(task);
    let name = name_of(&taskfile, "foo", "corge", "grault", &StrMap::new());
    assert!(name.starts_with("task:task-"));
    assert_eq!(name.len(), "task:task-".len() + 64);
}

#[test]
fn check_task_file_accepts_valid_file() {
    let mut tasks = StrMap::new();
    tasks.insert("foo".to_owned(), task_with_dependencies(&[]));
    tasks.insert("bar".to_owned(), task_with_dependencies(&["foo"]));
    assert!(check_task_file(file_with(Some("bar"), tasks)).is_ok());
}

#[test]
fn check_task_file_rejects_relative_location() {
    let file = TaskFile { location: "scratch".to_owned(), ..file_with(None, StrMap::new()) };
    let message = check_task_file(file).unwrap_err().message();
    assert!(message.contains("scratch"));
}

#[test]
fn check_task_file_rejects_bad_task() {
    let mut tasks = StrMap::new();
    tasks.insert("foo".to_owned(), Task { ports: vec!["80".to_owned()], ..plain_task() });
    let message = check_task_file(file_with(None, tasks)).unwrap_err().message();
    assert!(message.contains("caching"));
}

#[test]
fn task_defaults() {
    assert!(default_task_cache());
    assert!(!default_task_mount_readonly());
    assert_eq!(default_location(), "/scratch");
    assert_eq!(default_user(), "root");
}

#[test]
fn mapping_parsed_from_text() {
    let m = MappingPath::parse_mapping("wubble:wabble");
    assert_eq!(m, MappingPath::new("wubble", "wabble"));
    let m = MappingPath::parse_mapping("/wobble");
    assert_eq!(m, MappingPath::new("/wobble", "/wobble"));
    let m = MappingPath::parse_mapping("a:b:c");
    assert_eq!(m, MappingPath::new("a", "b:c"));
    assert_eq!(MappingPath::new("a", "b").to_text(), "a:b");
}

#[test]
fn check_task_file_comprehensive() {
    let mut environment = StrMap::new();
    environment.insert("SPAM".to_owned(), Some("monty".to_owned()));
    environment.insert("HAM".to_owned(), None);
    environment.insert("EGGS".to_owned(), None);
    let bar = Task {
        description: Some("Reticulate splines.".to_owned()),
        dependencies: vec!["foo".to_owned()],
        cache: false,
        environment,
        input_paths: vec!["qux".to_owned(), "quux".to_owned(), "quuz".to_owned()],
        excluded_input_paths: vec!["spam".to_owned(), "ham".to_owned(), "eggs".to_owned()],
        output_paths: vec!["corge".to_owned(), "grault".to_owned(), "garply".to_owned()],
        output_paths_on_failure: vec!["fnord".to_owned(), "smurf".to_owned(), "xyzzy".to_owned()],
        mount_paths: vec![
            MappingPath::parse_mapping("wibble"),
            MappingPath::parse_mapping("/wobble"),
            MappingPath::parse_mapping("wubble:wabble"),
        ],
        mount_readonly: true,
        ports: vec!["3000".to_owned(), "3001".to_owned(), "3002".to_owned()],
        location: Some("/code".to_owned()),
        user: Some("waldo".to_owned()),
        command: "flob".to_owned(),
        command_prefix: Some("flob_prefix".to_owned()),
        extra_docker_arguments: vec!["--cpus".to_owned(), "4".to_owned()],
    };
    let mut tasks = StrMap::new();
    tasks.insert("foo".to_owned(), plain_task());
    tasks.insert("bar".to_owned(), bar);
    let task_file = TaskFile {
        image: "encom:os-12".to_owned(),
        default: Some("bar".to_owned()),
        location: "/default_location".to_owned(),
        user: "default_user".to_owned(),
        command_prefix: "prefix".to_owned(),
        tasks,
    };
    assert_eq!(check_task_file(task_file.clone()).ok(), Some(task_file));
}
