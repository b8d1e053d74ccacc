use sealed_infra::containers::{
    commit_container_args, container_args, container_id, copy_from_plan, copy_into_container_args,
    create_container_args, delete_container_args, delete_image_args, image_exists_args,
    image_exists_outcome, join_host_path, move_or_copy_failure, path_failure, pull_image_args,
    push_image_args, spawn_shell_args, start_container_args, stop_container_args,
};
use sealed_infra::error::{SealedError, SealedServicesError};
use sealed_infra::str_map::StrMap;
use sealed_infra::task::MappingPath;

fn strings(items: &[&str]) -> Vec<String> {
    items.iter().map(|s| (*s).to_owned()).collect()
}

#[test]
fn container_options_in_order() {
    let mut env = StrMap::new();
    env.insert("A".to_owned(), "1".to_owned());
    env.insert("B".to_owned(), "x=y".to_owned());
    let mounts = vec![MappingPath::new("data", "data"), MappingPath::new("/abs", "/mnt")];
    let args = container_args(
        "/home/me",
        "proj",
        &env,
        "/scratch",
        &mounts,
        true,
        &strings(&["3000:80"]),
        &strings(&["--cpus", "4"]),
    );
    assert_eq!(
        args,
        strings(&[
            "--init",
            "--user",
            "root",
            "--env",
            "A=1",
            "--env",
            "B=x=y",
            "--workdir",
            "/scratch",
            "--mount",
            "type=bind,source=/home/me/proj/data,target=/scratch/data,readonly",
            "--mount",
            "type=bind,source=/abs,target=/mnt,readonly",
            "--publish",
            "3000:80",
            "--cpus",
            "4",
        ])
    );
}

#[test]
fn container_options_writable_mounts() {
    let mounts = vec![MappingPath::new("d", "")];
    let args = container_args("/", "/src", &StrMap::new(), "/loc/", &mounts, false, &vec![], &vec![]);
    assert_eq!(
        args,
        strings(&[
            "--init",
            "--user",
            "root",
            "--workdir",
            "/loc/",
            "--mount",
            "type=bind,source=/src/d,target=/loc/",
        ])
    );
}

#[test]
fn create_and_shell_arguments() {
    let options = strings(&["--init"]);
    assert_eq!(
        create_container_args("img", &options, "root", "echo hi"),
        strings(&["container", "create", "--init", "img", "/bin/su", "-c", "echo hi", "root"])
    );
    assert_eq!(
        spawn_shell_args("img", &options, "me"),
        strings(&["container", "run", "--rm", "--interactive", "--tty", "--init", "img", "/bin/su", "me"])
    );
}

#[test]
fn simple_docker_arguments() {
    assert_eq!(image_exists_args("i"), strings(&["image", "inspect", "i"]));
    assert_eq!(push_image_args("i"), strings(&["image", "push", "i"]));
    assert_eq!(pull_image_args("i"), strings(&["image", "pull", "i"]));
    assert_eq!(delete_image_args("i"), strings(&["image", "rm", "--force", "i"]));
    assert_eq!(start_container_args("c"), strings(&["container", "start", "--attach", "c"]));
    assert_eq!(stop_container_args("c"), strings(&["container", "stop", "c"]));
    assert_eq!(commit_container_args("c", "i"), strings(&["container", "commit", "c", "i"]));
    assert_eq!(delete_container_args("c"), strings(&["container", "rm", "--force", "c"]));
    assert_eq!(copy_into_container_args("c"), strings(&["container", "cp", "-", "c:/"]));
}

#[test]
fn container_id_is_trimmed() {
    assert_eq!(container_id("  abc123\n"), "abc123");
    assert_eq!(container_id("\u{3000}id\u{a0}"), "id");
    assert_eq!(container_id(" \t\n"), "");
    assert_eq!(container_id("a b"), "a b");
}

#[test]
fn image_exists_outcomes() {
    assert!(matches!(image_exists_outcome(Ok("[]".to_owned())), Ok(true)));
    assert!(matches!(
        image_exists_outcome(Err(SealedError::System("x".to_owned(), None))),
        Ok(false)
    ));
    assert!(matches!(
        image_exists_outcome(Err(SealedError::FailedToRunUserCommand("x".to_owned(), None))),
        Ok(false)
    ));
    assert!(matches!(
        image_exists_outcome(Err(SealedError::Interrupted)),
        Err(SealedServicesError::Interrupted)
    ));
    match image_exists_outcome(Err(SealedError::IOError("disk".to_owned()))) {
        Err(SealedServicesError::IOError(m)) => assert_eq!(m, "disk"),
        _ => panic!("expected an I/O error"),
    }
    match image_exists_outcome(Err(SealedError::Cli("x".to_owned()))) {
        Err(SealedServicesError::RuntimeError(m)) => assert_eq!(m, "unknown error"),
        _ => panic!("expected a runtime error"),
    }
}

#[test]
fn copy_plan_paths() {
    let plan = copy_from_plan("c1", "/scratch", "/home/me/proj", "out/file", "/tmp/x/data");
    assert_eq!(plan.source, "/scratch/out/file");
    assert_eq!(plan.destination, "/home/me/proj/out/file");
    assert_eq!(plan.args, strings(&["container", "cp", "c1:/scratch/out/file", "/tmp/x/data"]));
    let plan = copy_from_plan("c1", "/scratch/", "dest/", "/abs", "i");
    assert_eq!(plan.source, "/abs");
    assert_eq!(plan.destination, "/abs");
}

#[test]
fn host_paths_join() {
    assert_eq!(join_host_path("a", "b"), "a/b");
    assert_eq!(join_host_path("a/", "b"), "a/b");
    assert_eq!(join_host_path("", "b"), "b");
    assert_eq!(join_host_path("a", "/b"), "/b");
    assert_eq!(join_host_path("a", ""), "a/");
}

#[test]
fn failure_messages() {
    match path_failure("Unable to create directory ", "/x", None) {
        SealedServicesError::System(m, c) => {
            assert_eq!(m, "Unable to create directory /x.");
            assert!(c.is_none());
        }
        _ => panic!("expected a system error"),
    }
    let e = move_or_copy_failure("/a", "/b", Some("denied".to_owned()));
    assert_eq!(
        e.message(),
        "System error: Unable to move or copy file /a to destination /b. Some(denied)"
    );
}
