use sealed_infra::docker::{
    action_for, env_assignments, merge_config, DockerAction, DockerBuilderOptions,
    DockerCommandArgs, DockerConfig, DockerHandlerArgs, DockerInstanceOption, Settings,
    SubCommand,
};
use sealed_infra::error::SealedCliError;
use sealed_infra::git_url::is_supported_git_url;
use sealed_infra::yaml::YamlValue;

fn builder() -> DockerBuilderOptions {
    DockerBuilderOptions {
        builder_name: None,
        out_dir: None,
        print_dockerfile: false,
        tags: vec![],
        labels: vec![],
        quiet: false,
        no_cache: false,
        platforms: vec![],
        current_dir: None,
        cpu_quota: None,
        cpu_period: None,
        cpu_share: None,
        memory: None,
        memory_swap: None,
        dockerfile: None,
        verbose: false,
        build_args: vec![],
        docker_host: None,
        docker_tls_verify: None,
        docker_output: None,
        docker_cert_path: None,
    }
}

fn instance(repository: Option<&str>, image: Option<&str>) -> DockerInstanceOption {
    DockerInstanceOption {
        name: None,
        user: None,
        commands: vec![],
        volumes: vec![],
        env: vec![],
        rm: false,
        docker_config: DockerConfig {
            repository: repository.map(|s| s.to_owned()),
            branch: None,
            image: image.map(|s| s.to_owned()),
            tag: None,
        },
        secrets: None,
        config_file: None,
    }
}

fn args(repository: Option<&str>, image: Option<&str>) -> DockerHandlerArgs {
    DockerHandlerArgs {
        dry_run: false,
        docker: DockerCommandArgs { builder: builder(), instance: instance(repository, image) },
        subcmd: None,
    }
}

fn settings() -> Settings {
    Settings { ssh_key: None, working_directory: "/work".to_owned() }
}

fn s(v: &str) -> YamlValue {
    YamlValue::Str(v.to_owned())
}

fn mapping(entries: Vec<(&str, YamlValue)>) -> YamlValue {
    YamlValue::Mapping(entries.into_iter().map(|(k, v)| (s(k), v)).collect())
}

#[test]
fn run_command_for_image() {
    let mut a = args(None, Some("nginx"));
    a.docker.instance.rm = true;
    a.docker.instance.volumes = vec!["/a:/b".to_owned()];
    a.docker.instance.env = vec!["X=1 2".to_owned()];
    a.docker.instance.name = Some("web".to_owned());
    a.docker.instance.user = Some("me".to_owned());
    a.docker.instance.commands = vec!["echo".to_owned(), "hi there".to_owned()];
    let cmd = a.to_docker_run_command_string(&settings()).unwrap();
    assert_eq!(
        cmd,
        "docker run --rm -v '/a:/b' -e 'X=1 2' --name web -u me 'nginx:latest' echo 'hi there'"
    );
}

#[test]
fn run_command_uses_tag() {
    let mut a = args(None, Some("nginx"));
    a.docker.instance.docker_config.tag = Some("1.2".to_owned());
    assert_eq!(a.to_docker_run_command_string(&settings()).unwrap(), "docker run 'nginx:1.2'");
}

#[test]
fn buildx_command_minimal() {
    let a = args(None, Some("app"));
    assert_eq!(
        a.to_docker_buildx_command_string(None, None).unwrap(),
        "docker buildx build -t 'app:latest' ."
    );
}

#[test]
fn buildx_command_full() {
    let mut a = args(None, Some("app"));
    a.docker.builder.builder_name = Some("b1".to_owned());
    a.docker.builder.out_dir = Some("out".to_owned());
    a.docker.builder.print_dockerfile = true;
    a.docker.builder.tags = vec!["x:1".to_owned()];
    a.docker.builder.labels = vec!["k=v".to_owned()];
    a.docker.builder.quiet = true;
    a.docker.builder.no_cache = true;
    a.docker.builder.platforms = vec!["linux/amd64".to_owned()];
    a.docker.builder.cpu_quota = Some("100".to_owned());
    a.docker.builder.cpu_period = Some("200".to_owned());
    a.docker.builder.cpu_share = Some("3".to_owned());
    a.docker.builder.memory = Some("1g".to_owned());
    a.docker.builder.memory_swap = Some("2g".to_owned());
    a.docker.builder.verbose = true;
    a.docker.builder.build_args = vec!["A=b".to_owned()];
    a.docker.builder.current_dir = Some("/src".to_owned());
    a.docker.instance.secrets = Some(vec!["id=s".to_owned()]);
    a.docker.instance.docker_config.tag = Some("t".to_owned());
    let cmd = a
        .to_docker_buildx_command_string(Some("/src/Dockerfile".to_owned()), Some("/k/id".to_owned()))
        .unwrap();
    assert_eq!(
        cmd,
        "docker buildx build --builder b1 --output out --print -t 'x:1' --label k=v --quiet \
         --no-cache --platform linux/amd64 --cpu-quota 100 --cpu-period 200 --cpu-shares 3 \
         --memory 1g --memory-swap 2g --verbose --build-arg A=b -t 'app:t' -f /src/Dockerfile \
         --secret id=s --secret id=ssh_priv_key,src=/k/id /src"
    );
}

#[test]
fn buildx_command_configured_dockerfile_wins() {
    let mut a = args(None, Some("app"));
    a.docker.builder.dockerfile = Some("Dockerfile.dev".to_owned());
    assert_eq!(
        a.to_docker_buildx_command_string(Some("/elsewhere/Dockerfile".to_owned()), None).unwrap(),
        "docker buildx build --file Dockerfile.dev -t 'app:latest' -f Dockerfile.dev ."
    );
}

#[test]
fn repo_name_from_url() {
    let a = args(Some("https://github.com/owner/project.git"), None);
    assert_eq!(a.get_repo_name().unwrap(), "project");
    let a = args(Some("git@bitbucket.org:financialpayments/tupay.git"), Some("ignored"));
    assert_eq!(a.get_repo_name().unwrap(), "tupay");
}

#[test]
fn repo_name_from_image() {
    let a = args(None, Some("nginx"));
    assert_eq!(a.get_repo_name().unwrap(), "nginx");
}

#[test]
fn repo_name_error_is_reported() {
    let a = args(Some("https://example.com"), None);
    match a.get_repo_name() {
        Err(SealedCliError::Terraform(m)) => assert!(m.starts_with("Git url parse error: ")),
        other => panic!("unexpected: {:?}", other.map(|_| ()).map_err(|e| e.message())),
    }
}

#[test]
fn run_command_with_repository() {
    let a = args(Some("https://github.com/owner/project.git"), None);
    assert_eq!(
        a.to_docker_run_command_string(&settings()).unwrap(),
        "docker run 'project:latest'"
    );
}

#[test]
fn env_prefix_is_escaped() {
    let mut a = args(None, Some("x"));
    a.docker.builder.docker_host = Some("tcp://h:2376".to_owned());
    a.docker.builder.docker_cert_path = Some("/my certs".to_owned());
    assert_eq!(
        a.get_env_prefix(),
        vec!["DOCKER_HOST='tcp://h:2376'".to_owned(), "DOCKER_CERT_PATH='/my certs'".to_owned()]
    );
    assert!(args(None, Some("x")).get_env_prefix().is_empty());
}

#[test]
fn env_assignments_split_at_first_equals() {
    let entries = vec!["A=b=c".to_owned(), "noequals".to_owned(), "B=".to_owned()];
    assert_eq!(
        env_assignments(&entries),
        vec![("A".to_owned(), "b=c".to_owned()), ("B".to_owned(), String::new())]
    );
}

#[test]
fn validate_requires_repository_or_image() {
    let mut a = args(None, None);
    match a.validate(false) {
        Err(SealedCliError::Runtime(m)) => assert_eq!(m, "No repository or image specified"),
        _ => panic!("expected an error"),
    }
    let mut a = args(None, Some("x"));
    assert!(a.validate(false).is_ok());
    assert_eq!(a.docker.builder.current_dir, None);
}

#[test]
fn validate_moves_into_existing_repository() {
    let mut a = args(Some("/"), None);
    assert!(a.validate(true).is_ok());
    assert_eq!(a.docker.builder.current_dir, Some("/".to_owned()));
    let mut a = args(Some("/no/such/place"), None);
    assert!(a.validate(false).is_ok());
    assert_eq!(a.docker.builder.current_dir, None);
    let mut a = args(None, Some("img"));
    assert!(a.validate(true).is_ok());
    assert_eq!(a.docker.builder.current_dir, None);
}

#[test]
fn repository_urls_the_parser_cannot_index() {
    for url in [
        "ssh:x",
        "ssh:x?y",
        "host:.",
        "ssh://h/?x",
        "host:o/r?a:b",
        "https://dev.azure.com/org/proj",
        "https:/dev.azure.com/a/b",
        "https:///dev.azure.com/a/b",
        "https://DEV.Azure.com/a/./b/c",
        "git@ssh.dev.azure.com:v3/o",
        "https://github.com/a b",
        "https://github.com/a%20b",
    ] {
        assert!(!is_supported_git_url(url), "{url}");
        match args(Some(url), None).get_repo_name() {
            Err(SealedCliError::Terraform(m)) => {
                assert_eq!(m, "Git url parse error: Git Url not in expected format")
            }
            _ => panic!("expected an error for {url}"),
        }
    }
    for url in [
        "https://github.com/owner/project.git",
        "git@github.com:o/r.git",
        "ssh://git@host/o/r",
        "https://github.com/o/r?x",
        "ssh://git@host/o/r#main",
        "https://github.com/o/r/",
    ] {
        assert!(is_supported_git_url(url), "{url}");
    }
    let a = args(Some("https://github.com/o/r?x=1"), None);
    assert_eq!(a.get_repo_name().unwrap(), "r");
    let a = args(Some("git@ssh.dev.azure.com:v3/Org/Proj/Repo"), None);
    assert_eq!(a.get_repo_name().unwrap(), "Repo");
    let a = args(Some("https://Org@dev.azure.com/Org/Proj/_git/Repo"), None);
    assert_eq!(a.get_repo_name().unwrap(), "Repo");
}

#[test]
fn merge_lays_config_over_options() {
    let mut a = args(None, Some("x"));
    a.docker.instance.name = Some("old".to_owned());
    a.docker.builder.tags = vec!["keep".to_owned()];
    let cfg = mapping(vec![
        ("name", s("new")),
        ("rm", YamlValue::Bool(true)),
        ("commands", YamlValue::Sequence(vec![s("a"), YamlValue::Bool(false), s("b")])),
        ("docker_config", mapping(vec![("tag", s("v2")), ("image", s("img"))])),
        ("quiet", YamlValue::Bool(true)),
        ("memory", s("1g")),
        ("cpu_quota", YamlValue::Number("5".to_owned())),
        ("ssh_key", s("~/.ssh/id")),
    ]);
    let merged = a.merge_with_config(&settings(), Some(&cfg));
    assert_eq!(merged.ssh_key, Some("~/.ssh/id".to_owned()));
    assert_eq!(merged.working_directory, "/work");
    assert_eq!(a.docker.instance.name, Some("new".to_owned()));
    assert!(a.docker.instance.rm);
    assert_eq!(a.docker.instance.commands, vec!["a".to_owned(), "b".to_owned()]);
    assert_eq!(a.docker.instance.docker_config.tag, Some("v2".to_owned()));
    assert_eq!(a.docker.instance.docker_config.image, Some("img".to_owned()));
    assert!(a.docker.builder.quiet);
    assert_eq!(a.docker.builder.memory, Some("1g".to_owned()));
    assert_eq!(a.docker.builder.cpu_quota, None);
    assert_eq!(a.docker.builder.tags, vec!["keep".to_owned()]);
}

#[test]
fn merge_without_config_keeps_everything() {
    let mut a = args(None, Some("x"));
    let merged = a.merge_with_config(&settings(), None);
    assert_eq!(merged.working_directory, "/work");
    assert_eq!(merged.ssh_key, None);
    assert_eq!(a.docker.instance.docker_config.image, Some("x".to_owned()));
}

#[test]
fn merge_config_under_tag() {
    let cfg = YamlValue::Tagged(
        "!settings".to_owned(),
        Box::new(mapping(vec![("working_directory", s("/w2"))])),
    );
    let merged = merge_config(settings(), &cfg);
    assert_eq!(merged.working_directory, "/w2");
}

#[test]
fn subcommand_actions() {
    assert!(matches!(action_for(Some(SubCommand::Build)), Ok(DockerAction::Build)));
    assert!(matches!(action_for(Some(SubCommand::Run)), Ok(DockerAction::Run)));
    match action_for(Some(SubCommand::Generate)) {
        Err(e) => assert_eq!(e.message(), "Runtime error: Unhandled command: for now"),
        _ => panic!("expected an error"),
    }
    match action_for(None) {
        Err(e) => assert_eq!(e.message(), "Runtime error: No subcommand specified or unhandled command"),
        _ => panic!("expected an error"),
    }
}

#[test]
fn checkout_sets_tag_and_directory() {
    let mut a = args(Some("repo"), None);
    a.apply_checkout("abc123".to_owned(), "/tmp/checkouts".to_owned());
    assert_eq!(a.docker.instance.docker_config.tag, Some("abc123".to_owned()));
    assert_eq!(a.docker.builder.current_dir, Some("/tmp/checkouts".to_owned()));
    assert_eq!(a.run_dir(), Some(&"repo".to_owned()));
    assert_eq!(a.docker.instance.docker_config.repository, Some("repo".to_owned()));
    assert!(!a.docker.instance.rm && a.docker.instance.volumes.is_empty());
    assert_eq!(a.build_dir(), Some(&"/tmp/checkouts".to_owned()));
}

#[test]
fn defaults_are_empty() {
    let a = DockerHandlerArgs::default();
    assert!(!a.dry_run);
    assert!(a.subcmd.is_none());
    assert!(a.docker.builder.tags.is_empty() && a.docker.builder.current_dir.is_none());
    assert!(a.docker.instance.docker_config.repository.is_none());
    let mut a = a;
    a.docker.instance.docker_config.image = Some("busybox".to_owned());
    assert_eq!(a.to_docker_run_command_string(&settings()).unwrap(), "docker run 'busybox:latest'");
    let b = DockerBuilderOptions::default();
    assert!(!b.quiet && b.dockerfile.is_none());
    let i = DockerInstanceOption::default();
    assert!(!i.rm && i.secrets.is_none());
    let c = DockerConfig::default();
    assert!(c.tag.is_none());
    let d = DockerCommandArgs::default();
    assert!(d.instance.commands.is_empty());
}
