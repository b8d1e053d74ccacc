use vstd::prelude::*;
use vstd::string::*;

use crate::error::{SealedCliError, SealedError};
use crate::git_url::{git_repo_name, is_supported_git_url, parse_repo_name, supported_git_url};
use crate::shell::{command_line, shell_escape, shell_escaped, to_command_line};
use crate::text::{owned, split_first, split_once, views};
use crate::yaml::{
    bool_value, get_bool_value, get_str_sequence, get_str_value, lookup, mapping_of, str_of,
    str_sequence, str_value, value_get, YamlValue,
};

verus! {

/// The settings that the docker commands read: the ssh key handed to builds as a secret,
/// and the working directory.
pub struct Settings {
    pub ssh_key: Option<String>,
    pub working_directory: String,
}

/// Where the image comes from: a repository (and branch), or an image name, and its tag.
pub struct DockerConfig {
    pub repository: Option<String>,
    pub branch: Option<String>,
    pub image: Option<String>,
    pub tag: Option<String>,
}

/// How a container is run.
pub struct DockerInstanceOption {
    pub name: Option<String>,
    pub user: Option<String>,
    pub commands: Vec<String>,
    pub volumes: Vec<String>,
    pub env: Vec<String>,
    pub rm: bool,
    pub docker_config: DockerConfig,
    pub secrets: Option<Vec<String>>,
    pub config_file: Option<String>,
}

/// How an image is built.
pub struct DockerBuilderOptions {
    pub builder_name: Option<String>,
    pub out_dir: Option<String>,
    pub print_dockerfile: bool,
    pub tags: Vec<String>,
    pub labels: Vec<String>,
    pub quiet: bool,
    pub no_cache: bool,
    pub platforms: Vec<String>,
    pub current_dir: Option<String>,
    pub cpu_quota: Option<String>,
    pub cpu_period: Option<String>,
    pub cpu_share: Option<String>,
    pub memory: Option<String>,
    pub memory_swap: Option<String>,
    pub dockerfile: Option<String>,
    pub verbose: bool,
    pub build_args: Vec<String>,
    pub docker_host: Option<String>,
    pub docker_tls_verify: Option<String>,
    pub docker_output: Option<String>,
    pub docker_cert_path: Option<String>,
}

/// The build and run options together.
pub struct DockerCommandArgs {
    pub builder: DockerBuilderOptions,
    pub instance: DockerInstanceOption,
}

/// What to do with the image.
#[derive(Debug, Clone, Copy, PartialEq, Eq, Structural)]
pub enum SubCommand {
    /// Generate the docker run command
    Generate,
    /// Build the docker run command
    Build,
    /// Run the docker run command
    Run,
}

/// The arguments of the docker command.
pub struct DockerHandlerArgs {
    pub dry_run: bool,
    pub docker: DockerCommandArgs,
    pub subcmd: Option<SubCommand>,
}

/// The work that a docker subcommand asks for.
#[derive(Debug, Clone, Copy, PartialEq, Eq, Structural)]
pub enum DockerAction {
    Build,
    Run,
}

/// No image source is given.
pub open spec fn config_is_empty(c: DockerConfig) -> bool {
    c.repository is None && c.branch is None && c.image is None && c.tag is None
}

/// No run option is given.
pub open spec fn instance_is_empty(i: DockerInstanceOption) -> bool {
    &&& i.name is None && i.user is None
    &&& i.commands@.len() == 0 && i.volumes@.len() == 0 && i.env@.len() == 0
    &&& !i.rm
    &&& config_is_empty(i.docker_config)
    &&& i.secrets is None && i.config_file is None
}

/// No build option is given.
pub open spec fn builder_is_empty(b: DockerBuilderOptions) -> bool {
    &&& b.builder_name is None && b.out_dir is None && !b.print_dockerfile
    &&& b.tags@.len() == 0 && b.labels@.len() == 0 && !b.quiet && !b.no_cache
    &&& b.platforms@.len() == 0 && b.current_dir is None
    &&& b.cpu_quota is None && b.cpu_period is None && b.cpu_share is None
    &&& b.memory is None && b.memory_swap is None && b.dockerfile is None && !b.verbose
    &&& b.build_args@.len() == 0
    &&& b.docker_host is None && b.docker_tls_verify is None && b.docker_output is None
    &&& b.docker_cert_path is None
}

impl Default for DockerConfig {
    /// No image source.
    fn default() -> (c: Self)
        ensures
            config_is_empty(c),
    {
        DockerConfig { repository: None, branch: None, image: None, tag: None }
    }
}

impl Default for DockerInstanceOption {
    /// No run option.
    fn default() -> (i: Self)
        ensures
            instance_is_empty(i),
    {
        DockerInstanceOption {
            name: None,
            user: None,
            commands: Vec::new(),
            volumes: Vec::new(),
            env: Vec::new(),
            rm: false,
            docker_config: DockerConfig::default(),
            secrets: None,
            config_file: None,
        }
    }
}

impl Default for DockerBuilderOptions {
    /// No build option.
    fn default() -> (b: Self)
        ensures
            builder_is_empty(b),
    {
        DockerBuilderOptions {
            builder_name: None,
            out_dir: None,
            print_dockerfile: false,
            tags: Vec::new(),
            labels: Vec::new(),
            quiet: false,
            no_cache: false,
            platforms: Vec::new(),
            current_dir: None,
            cpu_quota: None,
            cpu_period: None,
            cpu_share: None,
            memory: None,
            memory_swap: None,
            dockerfile: None,
            verbose: false,
            build_args: Vec::new(),
            docker_host: None,
            docker_tls_verify: None,
            docker_output: None,
            docker_cert_path: None,
        }
    }
}

impl Default for DockerCommandArgs {
    /// No build or run option.
    fn default() -> (d: Self)
        ensures
            builder_is_empty(d.builder),
            instance_is_empty(d.instance),
    {
        DockerCommandArgs {
            builder: DockerBuilderOptions::default(),
            instance: DockerInstanceOption::default(),
        }
    }
}

impl Default for DockerHandlerArgs {
    /// No option and no subcommand, not a dry run.
    fn default() -> (a: Self)
        ensures
            !a.dry_run,
            builder_is_empty(a.docker.builder),
            instance_is_empty(a.docker.instance),
            a.subcmd is None,
    {
        DockerHandlerArgs { dry_run: false, docker: DockerCommandArgs::default(), subcmd: None }
    }
}

/// The views of an optional string.
pub open spec fn opt_seq(o: Option<String>) -> Option<Seq<char>> {
    match o {
        Some(s) => Some(s@),
        None => None,
    }
}

/// `flag value` when a value is given, nothing otherwise.
pub open spec fn opt_args(flag: Seq<char>, v: Option<String>) -> Seq<Seq<char>> {
    match v {
        Some(s) => seq![flag, s@],
        None => Seq::empty(),
    }
}

/// `flag` when `b` holds, nothing otherwise.
pub open spec fn flag_if(flag: Seq<char>, b: bool) -> Seq<Seq<char>> {
    if b {
        seq![flag]
    } else {
        Seq::empty()
    }
}

/// `flag item` for each item, in order.
pub open spec fn each_args(flag: Seq<char>, items: Seq<String>) -> Seq<Seq<char>>
    decreases items.len(),
{
    if items.len() == 0 {
        Seq::empty()
    } else {
        each_args(flag, items.drop_last()) + seq![flag, items.last()@]
    }
}

/// The tag of the image: the configured one, or `latest`.
pub open spec fn tag_or_latest(c: DockerConfig) -> Seq<char> {
    match c.tag {
        Some(t) => t@,
        None => "latest"@,
    }
}

/// The image reference `name:tag`.
pub open spec fn image_ref(repo_name: Seq<char>, c: DockerConfig) -> Seq<char> {
    repo_name + ":"@ + tag_or_latest(c)
}

/// The arguments of `docker run` for an instance of the image `repo_name`.
pub open spec fn run_parts(i: DockerInstanceOption, repo_name: Seq<char>) -> Seq<Seq<char>> {
    seq!["docker"@, "run"@] + flag_if("--rm"@, i.rm) + each_args("-v"@, i.volumes@) + each_args(
        "-e"@,
        i.env@,
    ) + opt_args("--name"@, i.name) + opt_args("-u"@, i.user) + seq![
        image_ref(repo_name, i.docker_config),
    ] + views(i.commands@)
}

/// `flag item` for each item: twice as many arguments as items, the flag before each item, in
/// order.
pub proof fn lemma_each_args(flag: Seq<char>, items: Seq<String>)
    ensures
        each_args(flag, items).len() == 2 * items.len(),
        forall|k: int|
            0 <= k < items.len() ==> #[trigger] each_args(flag, items)[2 * k] == flag
                && each_args(flag, items)[2 * k + 1] == items[k]@,
    decreases items.len(),
{
    if items.len() > 0 {
        lemma_each_args(flag, items.drop_last());
        let prev = each_args(flag, items.drop_last());
        assert forall|k: int| 0 <= k < items.len() implies #[trigger] each_args(flag, items)[2 * k]
            == flag && each_args(flag, items)[2 * k + 1] == items[k]@ by {
            if k < items.len() - 1 {
                assert(prev[2 * k] == flag);
                assert(items.drop_last()[k] == items[k]);
            }
        }
    }
}

/// The number of arguments that an optional setting adds: two when it is given.
#[verifier::opaque]
pub open spec fn opt_count(v: Option<String>) -> int {
    if v is Some {
        2
    } else {
        0
    }
}

/// The `docker run` arguments, laid out: `docker run`, `--rm` when asked for, `-v volume` for
/// every volume in order, `-e variable` for every variable in order, `--name` and `-u` with
/// their values when given, the image `name:tag` (`latest` without a tag), then the commands.
pub proof fn law_run_arguments(i: DockerInstanceOption, repo_name: Seq<char>)
    ensures
        ({
            let parts = run_parts(i, repo_name);
            let ov = 2 + flag_count(i.rm);
            let oe = ov + 2 * i.volumes@.len();
            let on = oe + 2 * i.env@.len();
            let ou = on + opt_count(i.name);
            let oi = ou + opt_count(i.user);
            let tag = match i.docker_config.tag {
                Some(t) => t@,
                None => "latest"@,
            };
            &&& parts.len() == oi + 1 + i.commands@.len()
            &&& parts[0] == "docker"@ && parts[1] == "run"@
            &&& i.rm ==> parts[2] == "--rm"@
            &&& forall|k: int|
                0 <= k < i.volumes@.len() ==> parts[ov + 2 * k] == "-v"@ && #[trigger] parts[ov + 2
                    * k + 1] == i.volumes@[k]@
            &&& forall|k: int|
                0 <= k < i.env@.len() ==> parts[oe + 2 * k] == "-e"@ && #[trigger] parts[oe + 2 * k
                    + 1] == i.env@[k]@
            &&& (i.name matches Some(x) ==> parts[on] == "--name"@ && parts[on + 1] == x@)
            &&& (i.user matches Some(x) ==> parts[ou] == "-u"@ && parts[ou + 1] == x@)
            &&& parts[oi] == repo_name + ":"@ + tag
            &&& forall|k: int|
                0 <= k < i.commands@.len() ==> #[trigger] parts[oi + 1 + k] == i.commands@[k]@
        }),
{
    lemma_each_args("-v"@, i.volumes@);
    lemma_each_args("-e"@, i.env@);
    lemma_flag_if_len("--rm"@, i.rm);
    lemma_opt_args_len("--name"@, i.name);
    lemma_opt_args_len("-u"@, i.user);
    let parts = run_parts(i, repo_name);
    let a = seq!["docker"@, "run"@] + flag_if("--rm"@, i.rm);
    let v = each_args("-v"@, i.volumes@);
    let e = each_args("-e"@, i.env@);
    let nm = opt_args("--name"@, i.name);
    let us = opt_args("-u"@, i.user);
    let img = seq![image_ref(repo_name, i.docker_config)];
    let cm = views(i.commands@);
    assert(parts == a + v + e + nm + us + img + cm);
    let ov = a.len() as int;
    assert forall|k: int| 0 <= k < i.volumes@.len() implies parts[ov + 2 * k] == "-v"@
        && #[trigger] parts[ov + 2 * k + 1] == i.volumes@[k]@ by {
        assert(v[2 * k] == "-v"@);
    }
    let oe = ov + v.len();
    assert forall|k: int| 0 <= k < i.env@.len() implies parts[oe + 2 * k] == "-e"@
        && #[trigger] parts[oe + 2 * k + 1] == i.env@[k]@ by {
        assert(e[2 * k] == "-e"@);
    }
    let oi = oe + e.len() + nm.len() + us.len();
    assert forall|k: int| 0 <= k < i.commands@.len() implies #[trigger] parts[oi + 1 + k]
        == i.commands@[k]@ by {
        assert(cm[k] == i.commands@[k]@);
    }
}

/// The directory a build runs in: the configured one, or the current one.
pub open spec fn build_context(b: DockerBuilderOptions) -> Seq<char> {
    match b.current_dir {
        Some(d) => d@,
        None => "."@,
    }
}

/// The Dockerfile arguments: the configured file, else the one found in the build context.
pub open spec fn dockerfile_args(b: DockerBuilderOptions, found: Option<Seq<char>>) -> Seq<
    Seq<char>,
> {
    match b.dockerfile {
        Some(d) => seq!["-f"@, d@],
        None => match found {
            Some(f) => seq!["-f"@, f],
            None => Seq::empty(),
        },
    }
}

/// The secrets handed to the build.
pub open spec fn secret_args(i: DockerInstanceOption, host_key: Option<Seq<char>>) -> Seq<
    Seq<char>,
> {
    (match i.secrets {
        Some(s) => each_args("--secret"@, s@),
        None => Seq::empty(),
    }) + (match host_key {
        Some(k) => seq!["--secret"@, "id=ssh_priv_key,src="@ + k],
        None => Seq::empty(),
    })
}

/// The builder options as `docker buildx build` arguments.
pub open spec fn builder_option_args(b: DockerBuilderOptions) -> Seq<Seq<char>> {
    opt_args("--builder"@, b.builder_name) + opt_args("--output"@, b.out_dir) + flag_if(
        "--print"@,
        b.print_dockerfile,
    ) + each_args("-t"@, b.tags@) + each_args("--label"@, b.labels@) + flag_if("--quiet"@, b.quiet)
        + flag_if("--no-cache"@, b.no_cache) + each_args("--platform"@, b.platforms@) + opt_args(
        "--cpu-quota"@,
        b.cpu_quota,
    ) + opt_args("--cpu-period"@, b.cpu_period) + opt_args("--cpu-shares"@, b.cpu_share)
        + opt_args("--memory"@, b.memory) + opt_args("--memory-swap"@, b.memory_swap) + opt_args(
        "--file"@,
        b.dockerfile,
    ) + flag_if("--verbose"@, b.verbose) + each_args("--build-arg"@, b.build_args@)
}

/// The arguments of `docker buildx build` for the image `repo_name`, given the Dockerfile found
/// in the build context and the ssh key of the settings.
pub open spec fn buildx_parts(
    d: DockerCommandArgs,
    repo_name: Seq<char>,
    found: Option<Seq<char>>,
    host_key: Option<Seq<char>>,
) -> Seq<Seq<char>> {
    seq!["docker"@, "buildx"@, "build"@] + builder_option_args(d.builder) + seq![
        "-t"@,
        image_ref(repo_name, d.instance.docker_config),
    ] + dockerfile_args(d.builder, found) + secret_args(d.instance, host_key) + seq![
        build_context(d.builder),
    ]
}

/// The number of arguments that a flag adds: one when it is set.
#[verifier::opaque]
pub open spec fn flag_count(b: bool) -> int {
    if b {
        1
    } else {
        0
    }
}

/// An optional setting adds as many arguments as it counts.
pub proof fn lemma_opt_args_len(flag: Seq<char>, v: Option<String>)
    ensures
        opt_args(flag, v).len() == opt_count(v),
        opt_count(v) == 0 || opt_count(v) == 2,
{
    reveal(opt_count);
}

/// A flag adds as many arguments as it counts.
pub proof fn lemma_flag_if_len(flag: Seq<char>, b: bool)
    ensures
        flag_if(flag, b).len() == flag_count(b),
        flag_count(b) == 0 || flag_count(b) == 1,
{
    reveal(flag_count);
}

/// The `j`th group of builder option arguments, counting from zero.
#[verifier::opaque]
spec fn builder_group(b: DockerBuilderOptions, j: int) -> Seq<Seq<char>> {
    if j == 0 {
        opt_args("--builder"@, b.builder_name)
    } else if j == 1 {
        opt_args("--output"@, b.out_dir)
    } else if j == 2 {
        flag_if("--print"@, b.print_dockerfile)
    } else if j == 3 {
        each_args("-t"@, b.tags@)
    } else if j == 4 {
        each_args("--label"@, b.labels@)
    } else if j == 5 {
        flag_if("--quiet"@, b.quiet)
    } else if j == 6 {
        flag_if("--no-cache"@, b.no_cache)
    } else if j == 7 {
        each_args("--platform"@, b.platforms@)
    } else if j == 8 {
        opt_args("--cpu-quota"@, b.cpu_quota)
    } else if j == 9 {
        opt_args("--cpu-period"@, b.cpu_period)
    } else if j == 10 {
        opt_args("--cpu-shares"@, b.cpu_share)
    } else if j == 11 {
        opt_args("--memory"@, b.memory)
    } else if j == 12 {
        opt_args("--memory-swap"@, b.memory_swap)
    } else if j == 13 {
        opt_args("--file"@, b.dockerfile)
    } else if j == 14 {
        flag_if("--verbose"@, b.verbose)
    } else if j == 15 {
        each_args("--build-arg"@, b.build_args@)
    } else {
        Seq::empty()
    }
}

/// The first `j` groups of builder option arguments, joined.
spec fn builder_prefix(b: DockerBuilderOptions, j: int) -> Seq<Seq<char>>
    decreases j,
{
    if j <= 0 {
        Seq::empty()
    } else if j == 1 {
        builder_group(b, 0)
    } else {
        builder_prefix(b, j - 1) + builder_group(b, j - 1)
    }
}

/// A group keeps its place in every longer prefix.
proof fn lemma_builder_prefix_index(b: DockerBuilderOptions, j: int, m: int, t: int)
    requires
        0 <= j < m,
        0 <= t < builder_group(b, j).len(),
    ensures
        builder_prefix(b, j).len() + builder_group(b, j).len() <= builder_prefix(b, m).len(),
        builder_prefix(b, m)[builder_prefix(b, j).len() + t] == builder_group(b, j)[t],
    decreases m,
{
    if m == j + 1 {
        if j == 0 {
            assert(builder_prefix(b, 0).len() == 0);
        }
    } else {
        lemma_builder_prefix_index(b, j, m - 1, t);
    }
}

/// The builder option arguments are their groups joined in order.
proof fn lemma_builder_joined(b: DockerBuilderOptions)
    ensures
        builder_option_args(b) == builder_prefix(b, 16),
{
    reveal(builder_group);
    reveal_with_fuel(builder_prefix, 17);
}

/// The groups of builder option arguments, one by one.
proof fn lemma_builder_groups(b: DockerBuilderOptions)
    ensures
        builder_group(b, 0) == opt_args("--builder"@, b.builder_name),
        builder_group(b, 1) == opt_args("--output"@, b.out_dir),
        builder_group(b, 2) == flag_if("--print"@, b.print_dockerfile),
        builder_group(b, 3) == each_args("-t"@, b.tags@),
        builder_group(b, 4) == each_args("--label"@, b.labels@),
        builder_group(b, 5) == flag_if("--quiet"@, b.quiet),
        builder_group(b, 6) == flag_if("--no-cache"@, b.no_cache),
        builder_group(b, 7) == each_args("--platform"@, b.platforms@),
        builder_group(b, 8) == opt_args("--cpu-quota"@, b.cpu_quota),
        builder_group(b, 9) == opt_args("--cpu-period"@, b.cpu_period),
        builder_group(b, 10) == opt_args("--cpu-shares"@, b.cpu_share),
        builder_group(b, 11) == opt_args("--memory"@, b.memory),
        builder_group(b, 12) == opt_args("--memory-swap"@, b.memory_swap),
        builder_group(b, 13) == opt_args("--file"@, b.dockerfile),
        builder_group(b, 14) == flag_if("--verbose"@, b.verbose),
        builder_group(b, 15) == each_args("--build-arg"@, b.build_args@),
{
    reveal(builder_group);
}

/// An optional setting's group holds the flag and the value, where its group starts.
proof fn lemma_builder_opt_at(b: DockerBuilderOptions, i: int, flag: Seq<char>, v: Option<String>)
    requires
        0 <= i < 16,
        builder_group(b, i) == opt_args(flag, v),
    ensures
        v matches Some(x) ==> builder_option_args(b)[builder_prefix(b, i).len() as int] == flag
            && builder_option_args(b)[builder_prefix(b, i).len() + 1int] == x@,
{
    lemma_builder_joined(b);
    if v is Some {
        lemma_builder_prefix_index(b, i, 16, 0);
        lemma_builder_prefix_index(b, i, 16, 1);
    }
}

/// A flag's group holds the flag where its group starts, when it is set.
proof fn lemma_builder_flag_at(b: DockerBuilderOptions, i: int, flag: Seq<char>, on: bool)
    requires
        0 <= i < 16,
        builder_group(b, i) == flag_if(flag, on),
    ensures
        on ==> builder_option_args(b)[builder_prefix(b, i).len() as int] == flag,
{
    lemma_builder_joined(b);
    if on {
        lemma_builder_prefix_index(b, i, 16, 0);
    }
}

/// A list's group holds `flag item` for each item, in order, from where its group starts.
proof fn lemma_builder_pair_at(
    b: DockerBuilderOptions,
    i: int,
    flag: Seq<char>,
    items: Seq<String>,
    k: int,
)
    requires
        0 <= i < 16,
        builder_group(b, i) == each_args(flag, items),
        0 <= k < items.len(),
    ensures
        builder_option_args(b)[builder_prefix(b, i).len() + 2 * k] == flag,
        builder_option_args(b)[builder_prefix(b, i).len() + 2 * k + 1] == items[k]@,
{
    lemma_builder_joined(b);
    lemma_each_args(flag, items);
    assert(each_args(flag, items)[2 * k] == flag);
    lemma_builder_prefix_index(b, i, 16, 2 * k);
    lemma_builder_prefix_index(b, i, 16, 2 * k + 1);
}

/// Where each group of builder option arguments starts, and how many arguments there are.
proof fn lemma_builder_offsets(b: DockerBuilderOptions)
    ensures
        ({
            let o0 = 0int;
            let o1 = o0 + opt_count(b.builder_name);
            let o2 = o1 + opt_count(b.out_dir);
            let o3 = o2 + flag_count(b.print_dockerfile);
            let o4 = o3 + 2 * b.tags@.len();
            let o5 = o4 + 2 * b.labels@.len();
            let o6 = o5 + flag_count(b.quiet);
            let o7 = o6 + flag_count(b.no_cache);
            let o8 = o7 + 2 * b.platforms@.len();
            let o9 = o8 + opt_count(b.cpu_quota);
            let o10 = o9 + opt_count(b.cpu_period);
            let o11 = o10 + opt_count(b.cpu_share);
            let o12 = o11 + opt_count(b.memory);
            let o13 = o12 + opt_count(b.memory_swap);
            let o14 = o13 + opt_count(b.dockerfile);
            let o15 = o14 + flag_count(b.verbose);
            let o16 = o15 + 2 * b.build_args@.len();
            &&& builder_prefix(b, 0).len() == o0
            &&& builder_prefix(b, 1).len() == o1
            &&& builder_prefix(b, 2).len() == o2
            &&& builder_prefix(b, 3).len() == o3
            &&& builder_prefix(b, 4).len() == o4
            &&& builder_prefix(b, 5).len() == o5
            &&& builder_prefix(b, 6).len() == o6
            &&& builder_prefix(b, 7).len() == o7
            &&& builder_prefix(b, 8).len() == o8
            &&& builder_prefix(b, 9).len() == o9
            &&& builder_prefix(b, 10).len() == o10
            &&& builder_prefix(b, 11).len() == o11
            &&& builder_prefix(b, 12).len() == o12
            &&& builder_prefix(b, 13).len() == o13
            &&& builder_prefix(b, 14).len() == o14
            &&& builder_prefix(b, 15).len() == o15
            &&& builder_prefix(b, 16).len() == o16
        }),
{
    lemma_opt_args_len("--builder"@, b.builder_name);
    lemma_opt_args_len("--output"@, b.out_dir);
    lemma_flag_if_len("--print"@, b.print_dockerfile);
    lemma_each_args("-t"@, b.tags@);
    lemma_each_args("--label"@, b.labels@);
    lemma_flag_if_len("--quiet"@, b.quiet);
    lemma_flag_if_len("--no-cache"@, b.no_cache);
    lemma_each_args("--platform"@, b.platforms@);
    lemma_opt_args_len("--cpu-quota"@, b.cpu_quota);
    lemma_opt_args_len("--cpu-period"@, b.cpu_period);
    lemma_opt_args_len("--cpu-shares"@, b.cpu_share);
    lemma_opt_args_len("--memory"@, b.memory);
    lemma_opt_args_len("--memory-swap"@, b.memory_swap);
    lemma_opt_args_len("--file"@, b.dockerfile);
    lemma_flag_if_len("--verbose"@, b.verbose);
    lemma_each_args("--build-arg"@, b.build_args@);
    lemma_builder_groups(b);
    let o0 = 0int;
    let o1 = o0 + opt_count(b.builder_name);
    let o2 = o1 + opt_count(b.out_dir);
    let o3 = o2 + flag_count(b.print_dockerfile);
    let o4 = o3 + 2 * b.tags@.len();
    let o5 = o4 + 2 * b.labels@.len();
    let o6 = o5 + flag_count(b.quiet);
    let o7 = o6 + flag_count(b.no_cache);
    let o8 = o7 + 2 * b.platforms@.len();
    let o9 = o8 + opt_count(b.cpu_quota);
    let o10 = o9 + opt_count(b.cpu_period);
    let o11 = o10 + opt_count(b.cpu_share);
    let o12 = o11 + opt_count(b.memory);
    let o13 = o12 + opt_count(b.memory_swap);
    let o14 = o13 + opt_count(b.dockerfile);
    let o15 = o14 + flag_count(b.verbose);
    let o16 = o15 + 2 * b.build_args@.len();
    assert(builder_prefix(b, 0).len() == o0);
    assert(builder_prefix(b, 1).len() == o1);
    assert(builder_prefix(b, 2).len() == o2);
    assert(builder_prefix(b, 3).len() == o3);
    assert(builder_prefix(b, 4).len() == o4);
    assert(builder_prefix(b, 5).len() == o5);
    assert(builder_prefix(b, 6).len() == o6);
    assert(builder_prefix(b, 7).len() == o7);
    assert(builder_prefix(b, 8).len() == o8);
    assert(builder_prefix(b, 9).len() == o9);
    assert(builder_prefix(b, 10).len() == o10);
    assert(builder_prefix(b, 11).len() == o11);
    assert(builder_prefix(b, 12).len() == o12);
    assert(builder_prefix(b, 13).len() == o13);
    assert(builder_prefix(b, 14).len() == o14);
    assert(builder_prefix(b, 15).len() == o15);
    assert(builder_prefix(b, 16).len() == o16);
}

/// The list settings of the builder options, laid out in order: after `--builder` and `--output`
/// with their values when given and `--print` when asked for, `-t tag` for every tag in order;
/// then `--label label` for every label in order; after `--quiet` and `--no-cache` when asked
/// for, `--platform platform` for every platform in order; and, after the CPU and memory
/// limits, `--file` and `--verbose`, `--build-arg arg` for every build argument in order.
pub proof fn law_builder_option_lists(b: DockerBuilderOptions)
    ensures
        ({
            let args = builder_option_args(b);
            let o0 = 0int;
            let o1 = o0 + opt_count(b.builder_name);
            let o2 = o1 + opt_count(b.out_dir);
            let o3 = o2 + flag_count(b.print_dockerfile);
            let o4 = o3 + 2 * b.tags@.len();
            let o5 = o4 + 2 * b.labels@.len();
            let o6 = o5 + flag_count(b.quiet);
            let o7 = o6 + flag_count(b.no_cache);
            let o8 = o7 + 2 * b.platforms@.len();
            let o9 = o8 + opt_count(b.cpu_quota);
            let o10 = o9 + opt_count(b.cpu_period);
            let o11 = o10 + opt_count(b.cpu_share);
            let o12 = o11 + opt_count(b.memory);
            let o13 = o12 + opt_count(b.memory_swap);
            let o14 = o13 + opt_count(b.dockerfile);
            let o15 = o14 + flag_count(b.verbose);
            let o16 = o15 + 2 * b.build_args@.len();
            &&& forall|k: int|
                0 <= k < b.tags@.len() ==> args[o3 + 2 * k] == "-t"@
                    && #[trigger] args[o3 + 2 * k + 1] == b.tags@[k]@
            &&& forall|k: int|
                0 <= k < b.labels@.len() ==> args[o4 + 2 * k] == "--label"@
                    && #[trigger] args[o4 + 2 * k + 1] == b.labels@[k]@
            &&& forall|k: int|
                0 <= k < b.platforms@.len() ==> args[o7 + 2 * k] == "--platform"@
                    && #[trigger] args[o7 + 2 * k + 1] == b.platforms@[k]@
            &&& forall|k: int|
                0 <= k < b.build_args@.len() ==> args[o15 + 2 * k] == "--build-arg"@
                    && #[trigger] args[o15 + 2 * k + 1] == b.build_args@[k]@
        }),
{
    lemma_builder_offsets(b);
    lemma_builder_groups(b);
    lemma_each_args("-t"@, b.tags@);
    lemma_each_args("--label"@, b.labels@);
    lemma_each_args("--platform"@, b.platforms@);
    lemma_each_args("--build-arg"@, b.build_args@);
    let o0 = 0int;
    let o1 = o0 + opt_count(b.builder_name);
    let o2 = o1 + opt_count(b.out_dir);
    let o3 = o2 + flag_count(b.print_dockerfile);
    let o4 = o3 + 2 * b.tags@.len();
    let o5 = o4 + 2 * b.labels@.len();
    let o6 = o5 + flag_count(b.quiet);
    let o7 = o6 + flag_count(b.no_cache);
    let o8 = o7 + 2 * b.platforms@.len();
    let o9 = o8 + opt_count(b.cpu_quota);
    let o10 = o9 + opt_count(b.cpu_period);
    let o11 = o10 + opt_count(b.cpu_share);
    let o12 = o11 + opt_count(b.memory);
    let o13 = o12 + opt_count(b.memory_swap);
    let o14 = o13 + opt_count(b.dockerfile);
    let o15 = o14 + flag_count(b.verbose);
    let o16 = o15 + 2 * b.build_args@.len();
    assert forall|k: int| 0 <= k < b.tags@.len() implies builder_option_args(b)[o3 + 2 * k] == "-t"@
        && #[trigger] builder_option_args(b)[o3 + 2 * k + 1] == b.tags@[k]@ by {
        lemma_builder_pair_at(b, 3, "-t"@, b.tags@, k);
    }
    assert forall|k: int| 0 <= k < b.labels@.len() implies builder_option_args(b)[o4 + 2 * k] == "--label"@
        && #[trigger] builder_option_args(b)[o4 + 2 * k + 1] == b.labels@[k]@ by {
        lemma_builder_pair_at(b, 4, "--label"@, b.labels@, k);
    }
    assert forall|k: int| 0 <= k < b.platforms@.len() implies builder_option_args(b)[o7 + 2 * k] == "--platform"@
        && #[trigger] builder_option_args(b)[o7 + 2 * k + 1] == b.platforms@[k]@ by {
        lemma_builder_pair_at(b, 7, "--platform"@, b.platforms@, k);
    }
    assert forall|k: int| 0 <= k < b.build_args@.len() implies builder_option_args(b)[o15 + 2 * k] == "--build-arg"@
        && #[trigger] builder_option_args(b)[o15 + 2 * k + 1] == b.build_args@[k]@ by {
        lemma_builder_pair_at(b, 15, "--build-arg"@, b.build_args@, k);
    }
}

/// The settings of the builder options that carry a value, each as its flag followed by the
/// value when given, at its place in the order `--builder`, `--output`, `--print`, tags,
/// labels, `--quiet`, `--no-cache`, platforms, `--cpu-quota`, `--cpu-period`, `--cpu-shares`,
/// `--memory`, `--memory-swap`, `--file`, `--verbose`, build arguments.
pub proof fn law_builder_option_values(b: DockerBuilderOptions)
    ensures
        ({
            let args = builder_option_args(b);
            let o0 = 0int;
            let o1 = o0 + opt_count(b.builder_name);
            let o2 = o1 + opt_count(b.out_dir);
            let o3 = o2 + flag_count(b.print_dockerfile);
            let o4 = o3 + 2 * b.tags@.len();
            let o5 = o4 + 2 * b.labels@.len();
            let o6 = o5 + flag_count(b.quiet);
            let o7 = o6 + flag_count(b.no_cache);
            let o8 = o7 + 2 * b.platforms@.len();
            let o9 = o8 + opt_count(b.cpu_quota);
            let o10 = o9 + opt_count(b.cpu_period);
            let o11 = o10 + opt_count(b.cpu_share);
            let o12 = o11 + opt_count(b.memory);
            let o13 = o12 + opt_count(b.memory_swap);
            let o14 = o13 + opt_count(b.dockerfile);
            let o15 = o14 + flag_count(b.verbose);
            let o16 = o15 + 2 * b.build_args@.len();
            &&& (b.builder_name matches Some(x) ==> args[o0] == "--builder"@ && args[o0 + 1] == x@)
            &&& (b.out_dir matches Some(x) ==> args[o1] == "--output"@ && args[o1 + 1] == x@)
            &&& (b.cpu_quota matches Some(x) ==> args[o8] == "--cpu-quota"@ && args[o8 + 1] == x@)
            &&& (b.cpu_period matches Some(x) ==> args[o9] == "--cpu-period"@ && args[o9 + 1] == x@)
            &&& (b.cpu_share matches Some(x) ==> args[o10] == "--cpu-shares"@ && args[o10 + 1] == x@)
            &&& (b.memory matches Some(x) ==> args[o11] == "--memory"@ && args[o11 + 1] == x@)
            &&& (b.memory_swap matches Some(x) ==> args[o12] == "--memory-swap"@ && args[o12 + 1] == x@)
            &&& (b.dockerfile matches Some(x) ==> args[o13] == "--file"@ && args[o13 + 1] == x@)
        }),
{
    lemma_builder_offsets(b);
    lemma_builder_groups(b);
    let o0 = 0int;
    let o1 = o0 + opt_count(b.builder_name);
    let o2 = o1 + opt_count(b.out_dir);
    let o3 = o2 + flag_count(b.print_dockerfile);
    let o4 = o3 + 2 * b.tags@.len();
    let o5 = o4 + 2 * b.labels@.len();
    let o6 = o5 + flag_count(b.quiet);
    let o7 = o6 + flag_count(b.no_cache);
    let o8 = o7 + 2 * b.platforms@.len();
    let o9 = o8 + opt_count(b.cpu_quota);
    let o10 = o9 + opt_count(b.cpu_period);
    let o11 = o10 + opt_count(b.cpu_share);
    let o12 = o11 + opt_count(b.memory);
    let o13 = o12 + opt_count(b.memory_swap);
    let o14 = o13 + opt_count(b.dockerfile);
    let o15 = o14 + flag_count(b.verbose);
    let o16 = o15 + 2 * b.build_args@.len();
    lemma_builder_opt_at(b, 0, "--builder"@, b.builder_name);
    lemma_builder_opt_at(b, 1, "--output"@, b.out_dir);
    lemma_builder_opt_at(b, 8, "--cpu-quota"@, b.cpu_quota);
    lemma_builder_opt_at(b, 9, "--cpu-period"@, b.cpu_period);
    lemma_builder_opt_at(b, 10, "--cpu-shares"@, b.cpu_share);
    lemma_builder_opt_at(b, 11, "--memory"@, b.memory);
    lemma_builder_opt_at(b, 12, "--memory-swap"@, b.memory_swap);
    lemma_builder_opt_at(b, 13, "--file"@, b.dockerfile);
}

/// The switches of the builder options (`--print`, `--quiet`, `--no-cache`, `--verbose`), each
/// present at its place in that order when asked for; and the arguments number exactly what the
/// settings add: two for each value given and each list item, one for each switch set.
pub proof fn law_builder_option_flags(b: DockerBuilderOptions)
    ensures
        ({
            let args = builder_option_args(b);
            let o0 = 0int;
            let o1 = o0 + opt_count(b.builder_name);
            let o2 = o1 + opt_count(b.out_dir);
            let o3 = o2 + flag_count(b.print_dockerfile);
            let o4 = o3 + 2 * b.tags@.len();
            let o5 = o4 + 2 * b.labels@.len();
            let o6 = o5 + flag_count(b.quiet);
            let o7 = o6 + flag_count(b.no_cache);
            let o8 = o7 + 2 * b.platforms@.len();
            let o9 = o8 + opt_count(b.cpu_quota);
            let o10 = o9 + opt_count(b.cpu_period);
            let o11 = o10 + opt_count(b.cpu_share);
            let o12 = o11 + opt_count(b.memory);
            let o13 = o12 + opt_count(b.memory_swap);
            let o14 = o13 + opt_count(b.dockerfile);
            let o15 = o14 + flag_count(b.verbose);
            let o16 = o15 + 2 * b.build_args@.len();
            &&& args.len() == o16
            &&& (b.print_dockerfile ==> args[o2] == "--print"@)
            &&& (b.quiet ==> args[o5] == "--quiet"@)
            &&& (b.no_cache ==> args[o6] == "--no-cache"@)
            &&& (b.verbose ==> args[o14] == "--verbose"@)
        }),
{
    lemma_builder_offsets(b);
    lemma_builder_groups(b);
    let o0 = 0int;
    let o1 = o0 + opt_count(b.builder_name);
    let o2 = o1 + opt_count(b.out_dir);
    let o3 = o2 + flag_count(b.print_dockerfile);
    let o4 = o3 + 2 * b.tags@.len();
    let o5 = o4 + 2 * b.labels@.len();
    let o6 = o5 + flag_count(b.quiet);
    let o7 = o6 + flag_count(b.no_cache);
    let o8 = o7 + 2 * b.platforms@.len();
    let o9 = o8 + opt_count(b.cpu_quota);
    let o10 = o9 + opt_count(b.cpu_period);
    let o11 = o10 + opt_count(b.cpu_share);
    let o12 = o11 + opt_count(b.memory);
    let o13 = o12 + opt_count(b.memory_swap);
    let o14 = o13 + opt_count(b.dockerfile);
    let o15 = o14 + flag_count(b.verbose);
    let o16 = o15 + 2 * b.build_args@.len();
    lemma_builder_flag_at(b, 2, "--print"@, b.print_dockerfile);
    lemma_builder_flag_at(b, 5, "--quiet"@, b.quiet);
    lemma_builder_flag_at(b, 6, "--no-cache"@, b.no_cache);
    lemma_builder_flag_at(b, 14, "--verbose"@, b.verbose);
}


/// The `docker buildx build` arguments, laid out: `docker buildx build`, then the builder
/// options as `law_builder_option_lists`, `law_builder_option_values` and
/// `law_builder_option_flags` lay them out (so `-t tag` for every configured
/// tag, in order), then the image's own `-t name:tag` (`latest` without a tag), the Dockerfile
/// arguments, the secrets, and last the build context.
pub proof fn law_buildx_arguments(
    d: DockerCommandArgs,
    repo_name: Seq<char>,
    found: Option<Seq<char>>,
    host_key: Option<Seq<char>>,
)
    ensures
        ({
            let b = d.builder;
            let parts = buildx_parts(d, repo_name, found, host_key);
            let opts = builder_option_args(b);
            let oi = 3int + opts.len();
            let df = dockerfile_args(b, found);
            let sec = secret_args(d.instance, host_key);
            &&& parts.len() == oi + 2 + df.len() + sec.len() + 1
            &&& parts[0] == "docker"@ && parts[1] == "buildx"@ && parts[2] == "build"@
            &&& forall|k: int| 0 <= k < opts.len() ==> #[trigger] parts[3 + k] == opts[k]
            &&& parts[oi] == "-t"@
            &&& parts[oi + 1] == repo_name + ":"@ + tag_or_latest(d.instance.docker_config)
            &&& forall|k: int| 0 <= k < df.len() ==> #[trigger] parts[oi + 2 + k] == df[k]
            &&& forall|k: int|
                0 <= k < sec.len() ==> #[trigger] parts[oi + 2 + df.len() + k] == sec[k]
            &&& parts[parts.len() - 1] == build_context(b)
        }),
{
    let b = d.builder;
    let parts = buildx_parts(d, repo_name, found, host_key);
    let head = seq!["docker"@, "buildx"@, "build"@];
    let opts = builder_option_args(b);
    let img = seq!["-t"@, image_ref(repo_name, d.instance.docker_config)];
    let df = dockerfile_args(b, found);
    let sec = secret_args(d.instance, host_key);
    let ctx = seq![build_context(b)];
    assert(parts == head + opts + img + df + sec + ctx);
    let oi = 3int + opts.len();
    assert forall|k: int| 0 <= k < opts.len() implies #[trigger] parts[3 + k] == opts[k] by {
        assert((head + opts)[3 + k] == opts[k]);
    }
    assert forall|k: int| 0 <= k < df.len() implies #[trigger] parts[oi + 2 + k] == df[k] by {
        assert((head + opts + img + df)[oi + 2 + k] == df[k]);
    }
    assert forall|k: int| 0 <= k < sec.len() implies #[trigger] parts[oi + 2 + df.len() + k]
        == sec[k] by {
        assert((head + opts + img + df + sec)[oi + 2 + df.len() + k] == sec[k]);
    }
}

/// `NAME=value` with the value escaped for the shell, when a value is given.
pub open spec fn env_entry(name: Seq<char>, v: Option<String>) -> Seq<Seq<char>> {
    match v {
        Some(s) => seq![name + "="@ + shell_escaped(s@)],
        None => Seq::empty(),
    }
}

/// The environment that the docker commands run with.
pub open spec fn env_prefix(b: DockerBuilderOptions) -> Seq<Seq<char>> {
    env_entry("DOCKER_HOST"@, b.docker_host) + env_entry("DOCKER_TLS_VERIFY"@, b.docker_tls_verify)
        + env_entry("DOCKER_CERT_PATH"@, b.docker_cert_path)
}

/// The name of the repository at `url` as git-url-parse reads it, or the message of the
/// error: a URL that git-url-parse cannot be given (see `supported_git_url`) is not in the
/// expected format.
pub open spec fn repo_name_result(url: Seq<char>) -> Result<Seq<char>, Seq<char>> {
    if supported_git_url(url) {
        git_repo_name(url)
    } else {
        Err("Git Url not in expected format"@)
    }
}

/// Appends `s`.
fn push_part(parts: &mut Vec<String>, s: &str)
    ensures
        views(final(parts)@) == views(old(parts)@).push(s@),
{
    parts.push(owned(s));
    assert(views(parts@) =~= views(old(parts)@).push(s@));
}

/// Appends `flag value` when a value is given.
fn push_opt(parts: &mut Vec<String>, flag: &str, v: &Option<String>)
    ensures
        views(final(parts)@) == views(old(parts)@) + opt_args(flag@, *v),
{
    match v {
        Some(s) => {
            push_part(parts, flag);
            push_part(parts, s.as_str());
            assert(views(parts@) =~= views(old(parts)@) + opt_args(flag@, *v));
        },
        None => {
            assert(views(parts@) =~= views(old(parts)@) + opt_args(flag@, *v));
        },
    }
}

/// Appends `flag` when `b` holds.
fn push_flag(parts: &mut Vec<String>, flag: &str, b: bool)
    ensures
        views(final(parts)@) == views(old(parts)@) + flag_if(flag@, b),
{
    if b {
        push_part(parts, flag);
    }
    assert(views(parts@) =~= views(old(parts)@) + flag_if(flag@, b));
}

/// Appends `flag item` for each item.
fn push_each(parts: &mut Vec<String>, flag: &str, items: &Vec<String>)
    ensures
        views(final(parts)@) == views(old(parts)@) + each_args(flag@, items@),
{
    let ghost start = views(parts@);
    let mut i: usize = 0;
    while i < items.len()
        invariant
            i <= items@.len(),
            views(parts@) == start + each_args(flag@, items@.take(i as int)),
        decreases items.len() - i,
    {
        assert(items@.take(i + 1).drop_last() =~= items@.take(i as int));
        push_part(parts, flag);
        push_part(parts, items[i].as_str());
        assert(views(parts@) =~= start + each_args(flag@, items@.take(i + 1)));
        i = i + 1;
    }
    assert(items@.take(items@.len() as int) =~= items@);
}

/// Appends every string of `items`.
fn push_all(parts: &mut Vec<String>, items: &Vec<String>)
    ensures
        views(final(parts)@) == views(old(parts)@) + views(items@),
{
    let ghost start = views(parts@);
    let mut i: usize = 0;
    while i < items.len()
        invariant
            i <= items@.len(),
            views(parts@) == start + views(items@.take(i as int)),
        decreases items.len() - i,
    {
        push_part(parts, items[i].as_str());
        assert(views(parts@) =~= start + views(items@.take(i + 1)));
        i = i + 1;
    }
    assert(items@.take(items@.len() as int) =~= items@);
}

/// `name:tag` for the image.
fn image_ref_of(repo_name: &str, c: &DockerConfig) -> (r: String)
    ensures
        r@ == image_ref(repo_name@, *c),
{
    let mut r = owned(repo_name);
    r.append(":");
    match &c.tag {
        Some(t) => r.append(t.as_str()),
        None => r.append("latest"),
    }
    r
}

/// Appends `NAME=value`, the value escaped for the shell, when a value is given.
fn push_env(parts: &mut Vec<String>, name: &str, v: &Option<String>)
    ensures
        views(final(parts)@) == views(old(parts)@) + env_entry(name@, *v),
{
    match v {
        Some(s) => {
            let mut e = owned(name);
            e.append("=");
            let escaped = shell_escape(s.as_str());
            e.append(escaped.as_str());
            parts.push(e);
        },
        None => {},
    }
    assert(views(parts@) =~= views(old(parts)@) + env_entry(name@, *v));
}

/// The builder options as `docker buildx build` arguments.
fn builder_options_of(b: &DockerBuilderOptions) -> (parts: Vec<String>)
    ensures
        views(parts@) == builder_option_args(*b),
{
    let mut parts: Vec<String> = Vec::new();
    push_opt(&mut parts, "--builder", &b.builder_name);
    assert(views(parts@) =~= opt_args("--builder"@, b.builder_name));
    push_opt(&mut parts, "--output", &b.out_dir);
    push_flag(&mut parts, "--print", b.print_dockerfile);
    push_each(&mut parts, "-t", &b.tags);
    push_each(&mut parts, "--label", &b.labels);
    push_flag(&mut parts, "--quiet", b.quiet);
    push_flag(&mut parts, "--no-cache", b.no_cache);
    push_each(&mut parts, "--platform", &b.platforms);
    push_opt(&mut parts, "--cpu-quota", &b.cpu_quota);
    push_opt(&mut parts, "--cpu-period", &b.cpu_period);
    push_opt(&mut parts, "--cpu-shares", &b.cpu_share);
    push_opt(&mut parts, "--memory", &b.memory);
    push_opt(&mut parts, "--memory-swap", &b.memory_swap);
    push_opt(&mut parts, "--file", &b.dockerfile);
    push_flag(&mut parts, "--verbose", b.verbose);
    push_each(&mut parts, "--build-arg", &b.build_args);
    parts
}

/// Appends two strings.
fn push_pair(parts: &mut Vec<String>, a: &str, b: &str)
    ensures
        views(final(parts)@) == views(old(parts)@) + seq![a@, b@],
{
    push_part(parts, a);
    push_part(parts, b);
    assert(views(parts@) =~= views(old(parts)@) + seq![a@, b@]);
}

/// Appends the Dockerfile arguments.
fn push_dockerfile(parts: &mut Vec<String>, b: &DockerBuilderOptions, found: &Option<String>)
    ensures
        views(final(parts)@) == views(old(parts)@) + dockerfile_args(*b, opt_seq(*found)),
{
    match &b.dockerfile {
        Some(d) => {
            push_part(parts, "-f");
            push_part(parts, d.as_str());
        },
        None => match found {
            Some(f) => {
                push_part(parts, "-f");
                push_part(parts, f.as_str());
            },
            None => {},
        },
    }
    assert(views(parts@) =~= views(old(parts)@) + dockerfile_args(*b, opt_seq(*found)));
}

/// Appends the secrets handed to the build.
fn push_secrets(parts: &mut Vec<String>, i: &DockerInstanceOption, host_key: &Option<String>)
    ensures
        views(final(parts)@) == views(old(parts)@) + secret_args(*i, opt_seq(*host_key)),
{
    match &i.secrets {
        Some(secrets) => push_each(parts, "--secret", secrets),
        None => {},
    }
    let ghost mid = views(parts@);
    match host_key {
        Some(k) => {
            push_part(parts, "--secret");
            let mut src = owned("id=ssh_priv_key,src=");
            src.append(k.as_str());
            push_part(parts, src.as_str());
        },
        None => {},
    }
    assert(views(parts@) =~= views(old(parts)@) + secret_args(*i, opt_seq(*host_key)));
}

/// The arguments of `docker buildx build`.
fn buildx_parts_of(
    d: &DockerCommandArgs,
    repo_name: &str,
    found: &Option<String>,
    host_key: &Option<String>,
) -> (parts: Vec<String>)
    ensures
        views(parts@) == buildx_parts(*d, repo_name@, opt_seq(*found), opt_seq(*host_key)),
{
    let mut parts: Vec<String> = Vec::new();
    push_part(&mut parts, "docker");
    push_part(&mut parts, "buildx");
    push_part(&mut parts, "build");
    assert(views(parts@) =~= seq!["docker"@, "buildx"@, "build"@]);
    let options = builder_options_of(&d.builder);
    push_all(&mut parts, &options);
    let tag = image_ref_of(repo_name, &d.instance.docker_config);
    push_pair(&mut parts, "-t", tag.as_str());
    push_dockerfile(&mut parts, &d.builder, found);
    push_secrets(&mut parts, &d.instance, host_key);
    let ghost before = views(parts@);
    match &d.builder.current_dir {
        Some(dir) => push_part(&mut parts, dir.as_str()),
        None => push_part(&mut parts, "."),
    }
    assert(views(parts@) =~= before + seq![build_context(d.builder)]);
    parts
}

/// The configured text when `found` holds one, else the current text.
pub open spec fn str_or(found: Option<Seq<char>>, current: Option<String>) -> Option<Seq<char>> {
    match found {
        Some(s) => Some(s),
        None => opt_seq(current),
    }
}

/// The configured strings when `found` holds them, else the current ones.
pub open spec fn strs_or(found: Option<Seq<Seq<char>>>, current: Vec<String>) -> Seq<Seq<char>> {
    match found {
        Some(s) => s,
        None => views(current@),
    }
}

/// The configured boolean when `found` holds one, else the current one.
pub open spec fn bool_or(found: Option<bool>, current: bool) -> bool {
    match found {
        Some(b) => b,
        None => current,
    }
}

/// `r` is the image source `c` with the entries of the mapping `m` laid over it.
pub open spec fn docker_config_merged(
    r: DockerConfig,
    c: DockerConfig,
    m: Seq<(YamlValue, YamlValue)>,
) -> bool {
    &&& opt_seq(r.repository) == str_or(str_value(m, "repository"@), c.repository)
    &&& opt_seq(r.branch) == str_or(str_value(m, "branch"@), c.branch)
    &&& opt_seq(r.image) == str_or(str_value(m, "image"@), c.image)
    &&& opt_seq(r.tag) == str_or(str_value(m, "tag"@), c.tag)
}

/// `r` is the instance `i` with the entries of the configuration `cfg` laid over it: each
/// entry of the right kind replaces the option of its name, and the mapping under
/// `docker_config` does the same for the image source.
pub open spec fn instance_merged(r: DockerInstanceOption, i: DockerInstanceOption, cfg: YamlValue) -> bool {
    match mapping_of(cfg) {
        None => r == i,
        Some(m) => {
            &&& opt_seq(r.name) == str_or(str_value(m, "name"@), i.name)
            &&& opt_seq(r.user) == str_or(str_value(m, "user"@), i.user)
            &&& views(r.commands@) == strs_or(str_sequence(m, "commands"@), i.commands)
            &&& views(r.volumes@) == strs_or(str_sequence(m, "volumes"@), i.volumes)
            &&& views(r.env@) == strs_or(str_sequence(m, "env"@), i.env)
            &&& r.rm == bool_or(bool_value(m, "rm"@), i.rm)
            &&& r.secrets == i.secrets
            &&& r.config_file == i.config_file
            &&& match lookup(m, "docker_config"@) {
                Some(dc) => match mapping_of(dc) {
                    Some(dm) => docker_config_merged(r.docker_config, i.docker_config, dm),
                    None => r.docker_config == i.docker_config,
                },
                None => r.docker_config == i.docker_config,
            }
        },
    }
}

/// `r` is the builder options `b` with the entries of the configuration `cfg` laid over them.
pub open spec fn builder_merged(r: DockerBuilderOptions, b: DockerBuilderOptions, cfg: YamlValue) -> bool {
    match mapping_of(cfg) {
        None => r == b,
        Some(m) => {
            &&& opt_seq(r.builder_name) == str_or(str_value(m, "builder_name"@), b.builder_name)
            &&& opt_seq(r.out_dir) == str_or(str_value(m, "out_dir"@), b.out_dir)
            &&& r.print_dockerfile == bool_or(bool_value(m, "print_dockerfile"@), b.print_dockerfile)
            &&& views(r.tags@) == strs_or(str_sequence(m, "tags"@), b.tags)
            &&& views(r.labels@) == strs_or(str_sequence(m, "labels"@), b.labels)
            &&& r.quiet == bool_or(bool_value(m, "quiet"@), b.quiet)
            &&& r.no_cache == bool_or(bool_value(m, "no_cache"@), b.no_cache)
            &&& views(r.platforms@) == strs_or(str_sequence(m, "platforms"@), b.platforms)
            &&& opt_seq(r.current_dir) == str_or(str_value(m, "current_dir"@), b.current_dir)
            &&& opt_seq(r.cpu_quota) == str_or(str_value(m, "cpu_quota"@), b.cpu_quota)
            &&& opt_seq(r.cpu_period) == str_or(str_value(m, "cpu_period"@), b.cpu_period)
            &&& opt_seq(r.cpu_share) == str_or(str_value(m, "cpu_share"@), b.cpu_share)
            &&& opt_seq(r.memory) == str_or(str_value(m, "memory"@), b.memory)
            &&& opt_seq(r.memory_swap) == str_or(str_value(m, "memory_swap"@), b.memory_swap)
            &&& r.verbose == bool_or(bool_value(m, "verbose"@), b.verbose)
            &&& opt_seq(r.docker_host) == str_or(str_value(m, "docker_host"@), b.docker_host)
            &&& opt_seq(r.docker_tls_verify) == str_or(
                str_value(m, "docker_tls_verify"@),
                b.docker_tls_verify,
            )
            &&& opt_seq(r.docker_output) == str_or(str_value(m, "docker_output"@), b.docker_output)
            &&& opt_seq(r.docker_cert_path) == str_or(
                str_value(m, "docker_cert_path"@),
                b.docker_cert_path,
            )
            &&& r.dockerfile == b.dockerfile
            &&& r.build_args == b.build_args
        },
    }
}

/// A configuration whose `ssh_key` and `working_directory`, where present, are strings.
pub open spec fn settings_entries_are_strings(cfg: YamlValue) -> bool {
    &&& (value_get(cfg, "ssh_key"@) matches Some(v) ==> str_of(v) is Some)
    &&& (value_get(cfg, "working_directory"@) matches Some(v) ==> str_of(v) is Some)
}

/// `r` is the settings `c` with the `ssh_key` and `working_directory` of `cfg` laid over them.
pub open spec fn settings_merged(r: Settings, c: Settings, cfg: YamlValue) -> bool {
    &&& opt_seq(r.ssh_key) == match value_get(cfg, "ssh_key"@) {
        Some(v) => str_of(v),
        None => opt_seq(c.ssh_key),
    }
    &&& r.working_directory@ == match value_get(cfg, "working_directory"@) {
        Some(v) => str_of(v).unwrap(),
        None => c.working_directory@,
    }
}

/// Replaces `slot` by the configured text, when there is one.
fn set_str(slot: &mut Option<String>, found: Option<String>)
    ensures
        opt_seq(*final(slot)) == str_or(opt_seq(found), *old(slot)),
        found is None ==> *final(slot) == *old(slot),
{
    if found.is_some() {
        *slot = found;
    }
}

/// Replaces `slot` by the configured strings, when there are some.
fn set_strs(slot: &mut Vec<String>, found: Option<Vec<String>>)
    ensures
        views(final(slot)@) == match found {
            Some(v) => views(v@),
            None => views(old(slot)@),
        },
{
    match found {
        Some(v) => {
            *slot = v;
        },
        None => {},
    }
}

/// Replaces `slot` by the configured boolean, when there is one.
fn set_bool(slot: &mut bool, found: Option<bool>)
    ensures
        *final(slot) == bool_or(found, *old(slot)),
{
    match found {
        Some(b) => {
            *slot = b;
        },
        None => {},
    }
}

/// The optional text stored under `key`.
fn opt_str_value(config: &Vec<(YamlValue, YamlValue)>, key: &str) -> (r: Option<String>)
    ensures
        opt_seq(r) == str_value(config@, key@),
{
    get_str_value(config, key)
}

/// Lays the image source entries of the mapping `m` over `c`.
fn merge_docker_config(c: &mut DockerConfig, m: &Vec<(YamlValue, YamlValue)>)
    ensures
        docker_config_merged(*final(c), *old(c), m@),
{
    set_str(&mut c.repository, opt_str_value(m, "repository"));
    set_str(&mut c.branch, opt_str_value(m, "branch"));
    set_str(&mut c.image, opt_str_value(m, "image"));
    set_str(&mut c.tag, opt_str_value(m, "tag"));
}

/// The optional strings of the sequence stored under `key`.
fn opt_str_sequence(config: &Vec<(YamlValue, YamlValue)>, key: &str) -> (r: Option<Vec<String>>)
    ensures
        match r {
            Some(v) => str_sequence(config@, key@) == Some(views(v@)),
            None => str_sequence(config@, key@) is None,
        },
{
    get_str_sequence(config, key)
}

/// Lays the entries of the configuration over the instance options.
fn merge_instance(instance: &mut DockerInstanceOption, config: &YamlValue)
    ensures
        instance_merged(*final(instance), *old(instance), *config),
{
    match config.as_mapping() {
        Some(m) => {
            set_str(&mut instance.name, opt_str_value(m, "name"));
            set_str(&mut instance.user, opt_str_value(m, "user"));
            set_strs(&mut instance.commands, opt_str_sequence(m, "commands"));
            set_strs(&mut instance.volumes, opt_str_sequence(m, "volumes"));
            set_strs(&mut instance.env, opt_str_sequence(m, "env"));
            set_bool(&mut instance.rm, get_bool_value(m, "rm"));
            match crate::yaml::mapping_get(m, "docker_config") {
                Some(dc) => match dc.as_mapping() {
                    Some(dm) => merge_docker_config(&mut instance.docker_config, dm),
                    None => {},
                },
                None => {},
            }
        },
        None => {},
    }
}

/// Lays the entries of the configuration over the builder options.
fn merge_builder(builder: &mut DockerBuilderOptions, config: &YamlValue)
    ensures
        builder_merged(*final(builder), *old(builder), *config),
{
    match config.as_mapping() {
        Some(m) => {
            set_str(&mut builder.builder_name, opt_str_value(m, "builder_name"));
            set_str(&mut builder.out_dir, opt_str_value(m, "out_dir"));
            set_bool(&mut builder.print_dockerfile, get_bool_value(m, "print_dockerfile"));
            set_strs(&mut builder.tags, opt_str_sequence(m, "tags"));
            set_strs(&mut builder.labels, opt_str_sequence(m, "labels"));
            set_bool(&mut builder.quiet, get_bool_value(m, "quiet"));
            set_bool(&mut builder.no_cache, get_bool_value(m, "no_cache"));
            set_strs(&mut builder.platforms, opt_str_sequence(m, "platforms"));
            set_str(&mut builder.current_dir, opt_str_value(m, "current_dir"));
            set_str(&mut builder.cpu_quota, opt_str_value(m, "cpu_quota"));
            set_str(&mut builder.cpu_period, opt_str_value(m, "cpu_period"));
            set_str(&mut builder.cpu_share, opt_str_value(m, "cpu_share"));
            set_str(&mut builder.memory, opt_str_value(m, "memory"));
            set_str(&mut builder.memory_swap, opt_str_value(m, "memory_swap"));
            set_bool(&mut builder.verbose, get_bool_value(m, "verbose"));
            set_str(&mut builder.docker_host, opt_str_value(m, "docker_host"));
            set_str(&mut builder.docker_tls_verify, opt_str_value(m, "docker_tls_verify"));
            set_str(&mut builder.docker_output, opt_str_value(m, "docker_output"));
            set_str(&mut builder.docker_cert_path, opt_str_value(m, "docker_cert_path"));
        },
        None => {},
    }
}

/// Lays the `ssh_key` and `working_directory` of the configuration over the settings.
pub fn merge_config(config: Settings, other: &YamlValue) -> (r: Settings)
    requires
        settings_entries_are_strings(*other),
    ensures
        settings_merged(r, config, *other),
{
    let mut config = config;
    match other.get("ssh_key") {
        Some(v) => {
            let key = v.as_str().unwrap();
            config.ssh_key = Some(key.clone());
        },
        None => {},
    }
    match other.get("working_directory") {
        Some(v) => {
            let dir = v.as_str().unwrap();
            config.working_directory = dir.clone();
        },
        None => {},
    }
    config
}

/// `a` with the image tag replaced by `tag` and the build directory by `dir`.
pub open spec fn with_checkout(a: DockerHandlerArgs, tag: Option<String>, dir: Option<String>) -> DockerHandlerArgs {
    DockerHandlerArgs {
        docker: DockerCommandArgs {
            builder: DockerBuilderOptions { current_dir: dir, ..a.docker.builder },
            instance: DockerInstanceOption {
                docker_config: DockerConfig { tag, ..a.docker.instance.docker_config },
                ..a.docker.instance
            },
        },
        ..a
    }
}

/// `a` with the build directory replaced by `d`.
pub open spec fn with_current_dir(a: DockerHandlerArgs, d: Option<String>) -> DockerHandlerArgs {
    DockerHandlerArgs {
        docker: DockerCommandArgs {
            builder: DockerBuilderOptions { current_dir: d, ..a.docker.builder },
            ..a.docker
        },
        ..a
    }
}

/// The variable that the entry `NAME=value` sets, split at its first `=`.
pub open spec fn assignment(s: Seq<char>) -> Option<(Seq<char>, Seq<char>)> {
    split_first(s, '=')
}

/// The variables that the entries set, in order; an entry without `=` sets none.
pub open spec fn assignments(entries: Seq<Seq<char>>) -> Seq<(Seq<char>, Seq<char>)>
    decreases entries.len(),
{
    if entries.len() == 0 {
        Seq::empty()
    } else {
        let prev = assignments(entries.drop_last());
        match assignment(entries.last()) {
            Some(p) => prev.push(p),
            None => prev,
        }
    }
}

/// The views of name and value pairs.
pub open spec fn pair_views(pairs: Seq<(String, String)>) -> Seq<(Seq<char>, Seq<char>)> {
    pairs.map_values(|p: (String, String)| (p.0@, p.1@))
}

/// The variables that the entries `NAME=value` set, each split at its first `=`; an entry
/// without `=` is passed over.
pub fn env_assignments(entries: &Vec<String>) -> (r: Vec<(String, String)>)
    ensures
        pair_views(r@) == assignments(views(entries@)),
{
    let ghost all = views(entries@);
    let mut r: Vec<(String, String)> = Vec::new();
    let mut i: usize = 0;
    while i < entries.len()
        invariant
            i <= entries@.len(),
            all == views(entries@),
            pair_views(r@) == assignments(all.take(i as int)),
        decreases entries.len() - i,
    {
        let ghost before = pair_views(r@);
        assert(all.take(i + 1).drop_last() =~= all.take(i as int));
        assert(all.take(i + 1).last() == entries@[i as int]@);
        match split_once(entries[i].as_str(), '=') {
            Some(p) => {
                r.push(p);
                assert(pair_views(r@) =~= before.push((r@.last().0@, r@.last().1@)));
            },
            None => {},
        }
        i = i + 1;
    }
    assert(all.take(entries@.len() as int) =~= all);
    r
}

/// What a docker subcommand asks for: `build` and `run` do their work; `generate` is not
/// handled yet, and without a subcommand there is nothing to do.
pub fn action_for(subcmd: Option<SubCommand>) -> (r: Result<DockerAction, SealedCliError>)
    ensures
        match subcmd {
            Some(SubCommand::Build) => r == Ok::<DockerAction, SealedCliError>(DockerAction::Build),
            Some(SubCommand::Run) => r == Ok::<DockerAction, SealedCliError>(DockerAction::Run),
            Some(SubCommand::Generate) => r matches Err(SealedCliError::Runtime(m)) && m@
                == "Unhandled command: for now"@,
            None => r matches Err(SealedCliError::Runtime(m)) && m@
                == "No subcommand specified or unhandled command"@,
        },
{
    match subcmd {
        Some(SubCommand::Build) => Ok(DockerAction::Build),
        Some(SubCommand::Run) => Ok(DockerAction::Run),
        Some(SubCommand::Generate) => Err(SealedCliError::Runtime(owned("Unhandled command: for now"))),
        None => Err(SealedCliError::Runtime(owned("No subcommand specified or unhandled command"))),
    }
}

impl DockerHandlerArgs {
    /// The environment that the docker commands run with: `DOCKER_HOST`, `DOCKER_TLS_VERIFY`
    /// and `DOCKER_CERT_PATH`, each where it is set, its value escaped for the shell.
    pub fn get_env_prefix(&self) -> (r: Vec<String>)
        ensures
            views(r@) == env_prefix(self.docker.builder),
    {
        let mut r: Vec<String> = Vec::new();
        assert(views(r@) =~= Seq::<Seq<char>>::empty());
        push_env(&mut r, "DOCKER_HOST", &self.docker.builder.docker_host);
        push_env(&mut r, "DOCKER_TLS_VERIFY", &self.docker.builder.docker_tls_verify);
        push_env(&mut r, "DOCKER_CERT_PATH", &self.docker.builder.docker_cert_path);
        r
    }

    /// The name of the image: the repository's name as git-url-parse reads it, or else the
    /// configured image. A URL that does not parse is an error carrying the parser's message; a
    /// URL of a shape on which the parser would fail to index its path (see
    /// `supported_git_url`) is reported as not in the expected format, before any parsing.
    pub fn get_repo_name(&self) -> (r: Result<String, SealedCliError>)
        requires
            self.docker.instance.docker_config.repository is Some
                || self.docker.instance.docker_config.image is Some,
        ensures
            match self.docker.instance.docker_config.repository {
                Some(url) => match repo_name_result(url@) {
                    Ok(n) => r matches Ok(s) && s@ == n,
                    Err(e) => r matches Err(SealedCliError::Terraform(m)) && m@
                        == "Git url parse error: "@ + e,
                },
                None => r matches Ok(s) && Some(s@) == opt_seq(
                    self.docker.instance.docker_config.image,
                ),
            },
    {
        match &self.docker.instance.docker_config.repository {
            Some(url) => {
                let parsed = if is_supported_git_url(url.as_str()) {
                    parse_repo_name(url.as_str())
                } else {
                    Err(owned("Git Url not in expected format"))
                };
                match parsed {
                    Ok(n) => Ok(n),
                    Err(e) => {
                        let err = SealedError::GitUrlParseError(e);
                        Err(SealedCliError::from_sealed(&err))
                    },
                }
            },
            None => match &self.docker.instance.docker_config.image {
                Some(image) => Ok(image.clone()),
                None => {
                    proof {
                        assert(false);
                    }
                    Ok(String::new())
                },
            },
        }
    }

    /// The `docker run` command line for the image, every argument escaped for the shell.
    pub fn to_docker_run_command_string(&self, config: &Settings) -> (r: Result<
        String,
        SealedCliError,
    >)
        requires
            self.docker.instance.docker_config.repository is Some
                || self.docker.instance.docker_config.image is Some,
        ensures
            match self.docker.instance.docker_config.repository {
                Some(url) => match repo_name_result(url@) {
                    Ok(n) => r matches Ok(s) && s@ == command_line(
                        run_parts(self.docker.instance, n),
                    ),
                    Err(e) => r matches Err(SealedCliError::Terraform(m)) && m@
                        == "Git url parse error: "@ + e,
                },
                None => match self.docker.instance.docker_config.image {
                    Some(image) => r matches Ok(s) && s@ == command_line(
                        run_parts(self.docker.instance, image@),
                    ),
                    None => false,
                },
            },
    {
        let repo_name = match self.get_repo_name() {
            Ok(n) => n,
            Err(e) => return Err(e),
        };
        let i = &self.docker.instance;
        let mut parts: Vec<String> = Vec::new();
        assert(views(parts@) =~= Seq::<Seq<char>>::empty());
        push_part(&mut parts, "docker");
        push_part(&mut parts, "run");
        push_flag(&mut parts, "--rm", i.rm);
        push_each(&mut parts, "-v", &i.volumes);
        push_each(&mut parts, "-e", &i.env);
        push_opt(&mut parts, "--name", &i.name);
        push_opt(&mut parts, "-u", &i.user);
        let tag = image_ref_of(repo_name.as_str(), &i.docker_config);
        push_part(&mut parts, tag.as_str());
        push_all(&mut parts, &i.commands);
        assert(views(parts@) =~= run_parts(*i, repo_name@));
        Ok(to_command_line(&parts))
    }
    /// The `docker buildx build` command line for the image, every argument escaped for the
    /// shell. `found_dockerfile` is the Dockerfile found in the build context (read only when
    /// no Dockerfile is configured) and `host_key` the path of the ssh key of the settings,
    /// both with their variables and `~` expanded.
    pub fn to_docker_buildx_command_string(
        &self,
        found_dockerfile: Option<String>,
        host_key: Option<String>,
    ) -> (r: Result<String, SealedCliError>)
        requires
            self.docker.instance.docker_config.repository is Some
                || self.docker.instance.docker_config.image is Some,
        ensures
            match self.docker.instance.docker_config.repository {
                Some(url) => match repo_name_result(url@) {
                    Ok(n) => r matches Ok(s) && s@ == command_line(
                        buildx_parts(self.docker, n, opt_seq(found_dockerfile), opt_seq(host_key)),
                    ),
                    Err(e) => r matches Err(SealedCliError::Terraform(m)) && m@
                        == "Git url parse error: "@ + e,
                },
                None => match self.docker.instance.docker_config.image {
                    Some(image) => r matches Ok(s) && s@ == command_line(
                        buildx_parts(
                            self.docker,
                            image@,
                            opt_seq(found_dockerfile),
                            opt_seq(host_key),
                        ),
                    ),
                    None => false,
                },
            },
    {
        let repo_name = match self.get_repo_name() {
            Ok(n) => n,
            Err(e) => return Err(e),
        };
        let parts = buildx_parts_of(&self.docker, repo_name.as_str(), &found_dockerfile, &host_key);
        Ok(to_command_line(&parts))
    }
    /// Checks that there is a repository or an image to work from; when the repository is a
    /// path that exists (`repository_exists`, which the caller learns from the disk for the
    /// configured repository), the build runs there.
    pub fn validate(&mut self, repository_exists: bool) -> (r: Result<(), SealedCliError>)
        ensures
            r is Err <==> (old(self).docker.instance.docker_config.repository is None
                && old(self).docker.instance.docker_config.image is None),
            r matches Err(e) ==> e matches SealedCliError::Runtime(m) && m@
                == "No repository or image specified"@,
            *final(self) == with_current_dir(*old(self), final(self).docker.builder.current_dir),
            r is Err || !repository_exists ==> *final(self) == *old(self),
            opt_seq(final(self).docker.builder.current_dir) == if r is Ok && repository_exists
                && old(self).docker.instance.docker_config.repository is Some {
                opt_seq(old(self).docker.instance.docker_config.repository)
            } else {
                opt_seq(old(self).docker.builder.current_dir)
            },
    {
        if self.docker.instance.docker_config.repository.is_none()
            && self.docker.instance.docker_config.image.is_none() {
            return Err(SealedCliError::Runtime(owned("No repository or image specified")));
        }
        if repository_exists {
            match &self.docker.instance.docker_config.repository {
                Some(repo) => {
                    let dir = repo.clone();
                    self.docker.builder.current_dir = Some(dir);
                },
                None => {},
            }
        }
        Ok(())
    }

    /// Lays the parsed configuration file, when there is one, over the options and the
    /// settings, and gives the settings back.
    pub fn merge_with_config(&mut self, config: &Settings, parsed: Option<&YamlValue>) -> (r: Settings)
        requires
            parsed matches Some(cfg) ==> settings_entries_are_strings(*cfg),
        ensures
            match parsed {
                Some(cfg) => {
                    &&& settings_merged(r, *config, *cfg)
                    &&& instance_merged(final(self).docker.instance, old(self).docker.instance, *cfg)
                    &&& builder_merged(final(self).docker.builder, old(self).docker.builder, *cfg)
                },
                None => {
                    &&& opt_seq(r.ssh_key) == opt_seq(config.ssh_key)
                    &&& r.working_directory@ == config.working_directory@
                    &&& final(self).docker == old(self).docker
                },
            },
            final(self).dry_run == old(self).dry_run,
            final(self).subcmd == old(self).subcmd,
    {
        let copy = Settings {
            ssh_key: match &config.ssh_key {
                Some(k) => Some(k.clone()),
                None => None,
            },
            working_directory: config.working_directory.clone(),
        };
        match parsed {
            Some(cfg) => {
                let merged = merge_config(copy, cfg);
                merge_instance(&mut self.docker.instance, cfg);
                merge_builder(&mut self.docker.builder, cfg);
                merged
            },
            None => copy,
        }
    }

    /// The directory the build command runs in.
    pub fn build_dir(&self) -> (r: Option<&String>)
        ensures
            opt_seq(match r { Some(d) => Some(*d), None => None }) == opt_seq(self.docker.builder.current_dir),
    {
        match &self.docker.builder.current_dir {
            Some(d) => Some(d),
            None => None,
        }
    }

    /// The directory the run command runs in: the repository, else the build directory.
    pub fn run_dir(&self) -> (r: Option<&String>)
        ensures
            opt_seq(match r { Some(d) => Some(*d), None => None }) == match self.docker.instance.docker_config.repository {
                Some(repo) => Some(repo@),
                None => opt_seq(self.docker.builder.current_dir),
            },
    {
        match &self.docker.instance.docker_config.repository {
            Some(repo) => Some(repo),
            None => self.build_dir(),
        }
    }

    /// Records a checkout of the repository: the image is tagged with the short commit hash
    /// and built in the directory that holds the checkout.
    pub fn apply_checkout(&mut self, short_sha: String, checkout_parent: String)
        ensures
            *final(self) == with_checkout(*old(self), Some(short_sha), Some(checkout_parent)),
    {
        self.docker.instance.docker_config.tag = Some(short_sha);
        self.docker.builder.current_dir = Some(checkout_parent);
    }
}

} // verus!
