use sealed_infra::apps::{new_app_row, CreateAppRequest, FpAppTaskStatus};
use sealed_infra::cli::{Cli, Command, LogLevel};
use sealed_infra::deps_graph::find_cycle;
use sealed_infra::error::{SealedCliError, SealedDatabaseError, SealedError, SealedServerError};
use sealed_infra::k8s::{SIConfigMap, SIContainer, SIDeployment, SINamespace, SIPod};
use sealed_infra::operator::{
    app_namespace, determine_action, requeue_after, requeue_on_error, Requeue, SealedAction,
    APP_FINALIZER,
};
use sealed_infra::ordering::{sorted_strings, str_less};
use sealed_infra::paths::{expand_path_text, segments_of};
use sealed_infra::shell::to_command_line;
use sealed_infra::str_map::StrMap;
use sealed_infra::text::{code_str, decimal, join_strings, series_of, split_once};
use sealed_infra::yaml::{get_str_sequence, YamlValue};

#[test]
fn namespace_test_default() {
    let namespace = SINamespace::default();
    assert_eq!(namespace.name, "default");
}

#[test]
fn deployment_test_default() {
    let deployment = SIDeployment::default();
    assert_eq!(deployment.name, String::new());
    assert_eq!(deployment.replicas, 1);
    assert!(deployment.containers.is_empty());
}

#[test]
fn k8s_constructors() {
    assert_eq!(SINamespace::new("apps").name, "apps");
    let c = SIContainer::new("web", "nginx");
    assert_eq!(c.name, "web");
    assert_eq!(c.image, "nginx");
    assert!(c.env.is_none() && c.command.is_none());
    let d = SIContainer::default();
    assert!(d.name.is_empty() && d.image.is_empty());
    let m = SIConfigMap::new("cfg");
    assert_eq!(m.name, "cfg");
    assert!(m.metadata.is_empty() && m.data.is_none() && m.owner_references.is_none());
    assert_eq!(SIConfigMap::default().name, "default");
    let p = SIPod::new("pod");
    assert_eq!(p.replicas, 1);
    assert!(p.ports.is_empty() && p.env.is_empty());
}

#[test]
fn operator_decisions() {
    assert_eq!(determine_action(true, &None), SealedAction::Delete);
    assert_eq!(determine_action(true, &Some(vec!["f".to_owned()])), SealedAction::Delete);
    assert_eq!(determine_action(false, &None), SealedAction::Create);
    assert_eq!(determine_action(false, &Some(vec![])), SealedAction::Create);
    assert_eq!(determine_action(false, &Some(vec![APP_FINALIZER.to_owned()])), SealedAction::NoOp);
    assert_eq!(requeue_after(SealedAction::Create), Requeue::AwaitChange);
    assert_eq!(requeue_after(SealedAction::Delete), Requeue::AwaitChange);
    assert_eq!(requeue_after(SealedAction::NoOp), Requeue::After(10));
    assert_eq!(requeue_on_error(), Requeue::After(5));
    assert_eq!(app_namespace(None), "default");
    assert_eq!(app_namespace(Some("ns".to_owned())), "ns");
    assert_eq!(APP_FINALIZER, "apps.fp.com/finalizer");
}

#[test]
fn cli_default() {
    let cli = Cli::default();
    assert_eq!(cli.settings, Some("config/config.yaml".to_owned()));
    assert!(!cli.verbose);
    assert!(cli.root.is_none());
    assert_eq!(cli.log_level, LogLevel::Info);
    assert!(matches!(cli.cmd, Command::Info(_)));
}

#[test]
fn new_app_defaults_to_empty_text() {
    let req = CreateAppRequest {
        name: Some("app".to_owned()),
        description: None,
        app_config: None,
        repository_url: Some("https://x/y.git".to_owned()),
        branch: None,
        image: None,
        tag: Some("t".to_owned()),
        created_at: "2024-01-01T00:00:00".to_owned(),
        updated_at: "2024-01-01T00:00:00".to_owned(),
    };
    let row = new_app_row(req);
    assert_eq!(row.name, "app");
    assert_eq!(row.description, "");
    assert_eq!(row.repository_url, "https://x/y.git");
    assert_eq!(row.branch, "");
    assert_eq!(row.image, "");
    assert_eq!(row.tag, "t");
    assert!(row.app_config.is_none());
    assert_ne!(FpAppTaskStatus::Pending, FpAppTaskStatus::Completed);
}

#[test]
fn cycles_found_or_ruled_out() {
    assert!(find_cycle(&vec![vec![1], vec![2], vec![]]).is_none());
    let c = find_cycle(&vec![vec![1], vec![2], vec![0]]).unwrap();
    assert_eq!(c.len(), 3);
    let c = find_cycle(&vec![vec![0]]).unwrap();
    assert!(!c.is_empty() && c.iter().all(|v| *v == 0));
    assert!(find_cycle(&vec![]).is_none());
}

#[test]
fn error_messages_and_conversions() {
    assert_eq!(SealedError::FileNotFound("x".to_owned()).message(), "File not found: x");
    assert_eq!(
        SealedCliError::from_sealed(&SealedError::Cli("bad".to_owned())).message(),
        "Unable to run terraform: CLI error: bad"
    );
    let e: SealedError = SealedCliError::Runtime("r".to_owned()).into();
    assert_eq!(e.message(), "CLI error: r");
    let d = SealedDatabaseError::System("s".to_owned(), Some("why".to_owned()));
    assert_eq!(d.message(), "System error: s Some(why)");
    let server: SealedServerError = SealedDatabaseError::Interrupted.into();
    assert_eq!(server.message(), "Database error: Interrupted");
    assert_eq!(server.to_sealed().message(), "Server error: Database error: Interrupted");
}

#[test]
fn expand_paths() {
    let mut env = StrMap::new();
    env.insert("HOME".to_owned(), "/Users/auser".to_owned());
    let home = Some("/Users/auser".to_owned());
    assert_eq!(expand_path_text("~/.ssh/id_rsa", &env, home.clone()), "/Users/auser/.ssh/id_rsa");
    assert_eq!(expand_path_text("$HOME/.ssh/id_rsa", &env, home.clone()), "/Users/auser/.ssh/id_rsa");
    assert_eq!(
        expand_path_text("$HOME/Documents/../Downloads", &env, home.clone()),
        "/Users/auser/Downloads"
    );
    assert_eq!(expand_path_text("~/../some/relative/path", &env, home.clone()), "/some/relative/path");
    assert_eq!(expand_path_text("/absolute/path", &env, home.clone()), "/absolute/path");
    assert_eq!(expand_path_text("~/Documents/../Downloads", &env, home.clone()), "/Users/auser/Downloads");
    assert_eq!(expand_path_text("$NOPE/x", &env, None), "$NOPE/x");
    assert_eq!(expand_path_text("~/x", &env, None), "~/x");
    assert_eq!(expand_path_text("./a//b/./c/", &env, None), "a/b/c");
    assert_eq!(expand_path_text("/..", &env, None), "/");
    assert_eq!(expand_path_text("~/..", &env, None), "/");
    assert_eq!(expand_path_text("a/..", &env, None), "");
    assert_eq!(segments_of("/a//b/./c"), vec!["a".to_owned(), "b".to_owned(), "c".to_owned()]);
}

#[test]
fn shell_words() {
    let line = |parts: &[&str]| to_command_line(&parts.iter().map(|s| (*s).to_owned()).collect());
    assert_eq!(line(&["plain-word_1.2"]), "plain-word_1.2");
    assert_eq!(line(&["echo", "a b"]), "echo 'a b'");
    assert_eq!(line(&[""]), "''");
    assert_eq!(line(&["it's!"]), "'it'\\''s'\\!''");
}

#[test]
fn text_helpers() {
    assert_eq!(code_str("x"), "`x`");
    assert_eq!(decimal(0), "0");
    assert_eq!(decimal(4096), "4096");
    assert_eq!(join_strings(&vec!["a".to_owned(), "b".to_owned()], ", "), "a, b");
    let items = |v: &[&str]| v.iter().map(|s| (*s).to_owned()).collect::<Vec<_>>();
    assert_eq!(series_of(&items(&["a"])), "a");
    assert_eq!(series_of(&items(&["a", "b"])), "a and b");
    assert_eq!(series_of(&items(&["a", "b", "c"])), "a, b, and c");
    assert_eq!(split_once("k=v=w", '='), Some(("k".to_owned(), "v=w".to_owned())));
    assert_eq!(split_once("kv", '='), None);
}

#[test]
fn ordering_of_strings() {
    assert!(str_less("a", "b"));
    assert!(str_less("a", "ab"));
    assert!(!str_less("b", "a"));
    assert!(!str_less("a", "a"));
    let sorted = sorted_strings(&vec!["foo".to_owned(), "bar".to_owned(), "baz".to_owned()]);
    assert_eq!(sorted, vec!["bar".to_owned(), "baz".to_owned(), "foo".to_owned()]);
    let again = sorted_strings(&vec!["baz".to_owned(), "foo".to_owned(), "bar".to_owned()]);
    assert_eq!(sorted, again);
}

#[test]
fn yaml_lookups() {
    let cfg = vec![
        (YamlValue::Str("k".to_owned()), YamlValue::Sequence(vec![
            YamlValue::Str("a".to_owned()),
            YamlValue::Tagged("!t".to_owned(), Box::new(YamlValue::Str("b".to_owned()))),
            YamlValue::Null,
        ])),
        (YamlValue::Str("k".to_owned()), YamlValue::Null),
    ];
    assert_eq!(get_str_sequence(&cfg, "k"), Some(vec!["a".to_owned(), "b".to_owned()]));
    assert_eq!(get_str_sequence(&cfg, "missing"), None);
}

#[test]
fn str_map_keeps_first_position() {
    let mut m = StrMap::new();
    assert_eq!(m.insert("a".to_owned(), 1), None);
    assert_eq!(m.insert("b".to_owned(), 2), None);
    assert_eq!(m.insert("a".to_owned(), 3), Some(1));
    assert_eq!(m.len(), 2);
    assert_eq!(m.key_at(0), "a");
    assert_eq!(*m.value_at(0), 3);
    assert_eq!(m.get("b"), Some(&2));
    assert!(!m.contains_key("c"));
}
