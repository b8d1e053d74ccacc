use vstd::prelude::*;
use vstd::string::*;

use crate::error::{opt_view, SealedDatabaseError};
use crate::paths::{unix_absolute, unix_path_is_absolute};
use crate::str_map::{keys_distinct, StrMap};
use crate::cache::{
    combine, combine_input, combine_text, hash_text, is_lower_hex, law_text_combine_separates,
    sha256_has_collision, lemma_hash_text_digits, CryptoHash,
    CACHE_VERSION,
};
use crate::ordering::{law_sort_ignores_order, sort_texts, sorted_strings};
use crate::taskfile::{command, location, task_command, task_location, task_user, user, TaskFile};
use crate::text::{
    code, code_str, contains_char, decimal, decimal_text, has_char, owned, split_first, split_once,
    views,
};
use vstd::utf8::encode_utf8;

verus! {

/// The default location for commands and files copied into the container.
pub const DEFAULT_LOCATION: &'static str = "/scratch";

/// The default user for commands and files copied into the container.
pub const DEFAULT_USER: &'static str = "root";

/// A path on the host and the corresponding path in the container.
#[derive(Clone, Debug, Eq, PartialEq)]
pub struct MappingPath {
    pub host_path: String,
    pub container_path: String,
}

impl MappingPath {
    /// A mapping whose host and container paths are given by `host:container`, or the same
    /// path on both sides when there is no `:`.
    pub fn new(host_path: &str, container_path: &str) -> (m: Self)
        ensures
            m.host_path@ == host_path@,
            m.container_path@ == container_path@,
    {
        MappingPath { host_path: host_path.to_owned(), container_path: container_path.to_owned() }
    }

    /// `host:container`, the way a mapping is written.
    pub fn to_text(&self) -> (r: String)
        ensures
            r@ == mapping_text(*self),
    {
        let mut r = self.host_path.clone();
        r.append(":");
        r.append(self.container_path.as_str());
        r
    }
}

/// The mapping that the text `host:container` stands for, split at its first `:`; a text
/// without `:` maps a path to the same path.
pub open spec fn mapping_of_text(v: Seq<char>) -> (Seq<char>, Seq<char>) {
    match split_first(v, ':') {
        Some(p) => p,
        None => (v, v),
    }
}

impl MappingPath {
    /// Reads a mapping from its text `host:container`, or a single path mapped to itself.
    pub fn parse_mapping(v: &str) -> (m: MappingPath)
        ensures
            (m.host_path@, m.container_path@) == mapping_of_text(v@),
    {
        match split_once(v, ':') {
            Some((host_path, container_path)) => MappingPath { host_path, container_path },
            None => MappingPath { host_path: owned(v), container_path: owned(v) },
        }
    }
}

/// `host:container`, the way a mapping is written.
pub open spec fn mapping_text(m: MappingPath) -> Seq<char> {
    m.host_path@ + ":"@ + m.container_path@
}

/// A task of a task file.
#[derive(Clone, Debug, PartialEq, Eq)]
pub struct Task {
    pub description: Option<String>,
    /// Must name tasks of the task file, and the dependencies must not form a cycle.
    pub dependencies: Vec<String>,
    /// Must be off when `mount_paths`, `ports` or `extra_docker_arguments` is nonempty.
    pub cache: bool,
    /// Variable names, with an optional default value; names must not contain `=`.
    pub environment: StrMap<Option<String>>,
    /// Must be relative.
    pub input_paths: Vec<String>,
    /// Must be relative.
    pub excluded_input_paths: Vec<String>,
    /// Must be relative.
    pub output_paths: Vec<String>,
    /// Must be relative.
    pub output_paths_on_failure: Vec<String>,
    /// Must not contain `,`.
    pub mount_paths: Vec<MappingPath>,
    pub mount_readonly: bool,
    pub ports: Vec<String>,
    /// When present, must be absolute; when absent, the task file's location applies.
    pub location: Option<String>,
    /// When absent, the task file's user applies.
    pub user: Option<String>,
    pub command: String,
    /// When absent, the task file's command prefix applies.
    pub command_prefix: Option<String>,
    pub extra_docker_arguments: Vec<String>,
}

/// The default for a task's `cache` setting.
pub fn default_task_cache() -> (b: bool)
    ensures
        b,
{
    true
}

/// The default for a task's `mount_readonly` setting.
pub fn default_task_mount_readonly() -> (b: bool)
    ensures
        !b,
{
    false
}

/// The index of the first item of `s` satisfying `p`, if any.
pub open spec fn is_first(s: Seq<Seq<char>>, p: spec_fn(Seq<char>) -> bool, i: int) -> bool {
    &&& 0 <= i < s.len()
    &&& p(s[i])
    &&& forall|j: int| 0 <= j < i ==> !p(#[trigger] s[j])
}

/// The index of the first item of `s` satisfying `p`, if any.
pub open spec fn first_match(s: Seq<Seq<char>>, p: spec_fn(Seq<char>) -> bool) -> Option<int> {
    if exists|i: int| is_first(s, p, i) {
        Some(choose|i: int| is_first(s, p, i))
    } else {
        None
    }
}

proof fn lemma_first_unique(s: Seq<Seq<char>>, p: spec_fn(Seq<char>) -> bool, i: int)
    requires
        is_first(s, p, i),
    ensures
        first_match(s, p) == Some(i),
{
    let c = choose|j: int| is_first(s, p, j);
    assert(is_first(s, p, c));
    if c < i {
        assert(!p(s[c]));
    } else if c > i {
        assert(!p(s[i]));
    }
}

/// Whether a path is absolute.
pub open spec fn absolute_pred() -> spec_fn(Seq<char>) -> bool {
    |p: Seq<char>| unix_absolute(p)
}

/// Whether a text contains `=`.
pub open spec fn has_equals_pred() -> spec_fn(Seq<char>) -> bool {
    |p: Seq<char>| has_char(p, '=')
}

/// The position of the first absolute path in `paths`, if any.
fn first_absolute(paths: &Vec<String>) -> (r: Option<usize>)
    ensures
        match r {
            Some(i) => first_match(views(paths@), absolute_pred()) == Some(i as int),
            None => first_match(views(paths@), absolute_pred()) is None,
        },
{
    let ghost s = views(paths@);
    let mut i: usize = 0;
    while i < paths.len()
        invariant
            s == views(paths@),
            i <= paths@.len(),
            forall|j: int| 0 <= j < i ==> !absolute_pred()(#[trigger] s[j]),
        decreases paths.len() - i,
    {
        if unix_path_is_absolute(paths[i].as_str()) {
            proof {
                assert(is_first(s, absolute_pred(), i as int));
                lemma_first_unique(s, absolute_pred(), i as int);
            }
            return Some(i);
        }
        i = i + 1;
    }
    proof {
        assert forall|j: int| !is_first(s, absolute_pred(), j) by {
            if 0 <= j < s.len() {
                assert(!absolute_pred()(s[j]));
            }
        }
    }
    None
}

/// The keys of an environment map.
pub open spec fn env_keys(env: Seq<(Seq<char>, Option<String>)>) -> Seq<Seq<char>> {
    env.map_values(|e: (Seq<char>, Option<String>)| e.0)
}

/// The position of the first environment variable whose name contains `=`, if any.
fn first_key_with_equals(env: &StrMap<Option<String>>) -> (r: Option<usize>)
    ensures
        match r {
            Some(i) => first_match(env_keys(env@), has_equals_pred()) == Some(i as int),
            None => first_match(env_keys(env@), has_equals_pred()) is None,
        },
{
    let ghost s = env_keys(env@);
    let mut i: usize = 0;
    while i < env.len()
        invariant
            s == env_keys(env@),
            i <= env@.len(),
            forall|j: int| 0 <= j < i ==> !has_equals_pred()(#[trigger] s[j]),
        decreases env@.len() - i,
    {
        if contains_char(env.key_at(i).as_str(), '=') {
            proof {
                assert(is_first(s, has_equals_pred(), i as int));
                lemma_first_unique(s, has_equals_pred(), i as int);
            }
            return Some(i);
        }
        i = i + 1;
    }
    proof {
        assert forall|j: int| !is_first(s, has_equals_pred(), j) by {
            if 0 <= j < s.len() {
                assert(!has_equals_pred()(s[j]));
            }
        }
    }
    None
}

/// Whether a mount path has a `,` on either side.
pub open spec fn mount_has_comma(m: MappingPath) -> bool {
    has_char(m.container_path@, ',') || has_char(m.host_path@, ',')
}

/// The position of the first mount path with a `,`, if any.
fn first_mount_with_comma(mounts: &Vec<MappingPath>) -> (r: Option<usize>)
    ensures
        match r {
            Some(i) => i < mounts@.len() && mount_has_comma(mounts@[i as int]) && forall|j: int|
                0 <= j < i ==> !mount_has_comma(#[trigger] mounts@[j]),
            None => forall|j: int| 0 <= j < mounts@.len() ==> !mount_has_comma(#[trigger] mounts@[j]),
        },
{
    let mut i: usize = 0;
    while i < mounts.len()
        invariant
            i <= mounts@.len(),
            forall|j: int| 0 <= j < i ==> !mount_has_comma(#[trigger] mounts@[j]),
        decreases mounts.len() - i,
    {
        if contains_char(mounts[i].container_path.as_str(), ',') || contains_char(
            mounts[i].host_path.as_str(),
            ',',
        ) {
            return Some(i);
        }
        i = i + 1;
    }
    None
}

/// The first mount path of `mounts` with a `,`, if any.
pub open spec fn first_comma_mount(mounts: Seq<MappingPath>) -> Option<int> {
    if exists|i: int|
        0 <= i < mounts.len() && mount_has_comma(mounts[i]) && forall|j: int|
            0 <= j < i ==> !mount_has_comma(#[trigger] mounts[j]) {
        Some(
            choose|i: int|
                0 <= i < mounts.len() && mount_has_comma(mounts[i]) && forall|j: int|
                    0 <= j < i ==> !mount_has_comma(#[trigger] mounts[j]),
        )
    } else {
        None
    }
}

/// The message for an absolute path among the paths of a task that must be relative.
pub open spec fn absolute_path_message(
    name: Seq<char>,
    field: Seq<char>,
    in_list: bool,
    path: Seq<char>,
) -> Seq<char> {
    if in_list {
        "Task "@ + code(name) + " has an absolute path in "@ + code(field) + ": "@ + code(path)
            + "."@
    } else {
        "Task "@ + code(name) + " has an absolute "@ + code(field) + ": "@ + code(path) + "."@
    }
}

/// The message for a setting that requires caching to be off.
pub open spec fn caching_message(name: Seq<char>, what: Seq<char>) -> Seq<char> {
    "Task "@ + code(name) + what + " but does not disable caching. To fix this, set "@ + code(
        "cache: false"@,
    ) + " for this "@ + "task."@
}

/// What is wrong with the task called `name`: the message of the first rule it breaks, checked
/// in this order: variable names without `=`; relative `input_paths`, `excluded_input_paths`,
/// `output_paths` and `output_paths_on_failure`; mount paths without `,`; an absolute
/// `location`; and caching off when there are mount paths, ports or extra Docker arguments.
pub open spec fn task_problem(name: Seq<char>, task: Task) -> Option<Seq<char>> {
    let env = env_keys(task.environment@);
    if first_match(env, has_equals_pred()) is Some {
        let v = env[first_match(env, has_equals_pred())->0];
        Some(
            "Environment variable "@ + code(v) + " of task "@ + code(name) + " contains "@ + code(
                "="@,
            ) + "."@,
        )
    } else if first_match(views(task.input_paths@), absolute_pred()) is Some {
        let p = views(task.input_paths@)[first_match(
            views(task.input_paths@),
            absolute_pred(),
        )->0];
        Some(absolute_path_message(name, "input_path"@, false, p))
    } else if first_match(views(task.excluded_input_paths@), absolute_pred()) is Some {
        let p = views(task.excluded_input_paths@)[first_match(
            views(task.excluded_input_paths@),
            absolute_pred(),
        )->0];
        Some(absolute_path_message(name, "excluded_input_path"@, false, p))
    } else if first_match(views(task.output_paths@), absolute_pred()) is Some {
        let p = views(task.output_paths@)[first_match(
            views(task.output_paths@),
            absolute_pred(),
        )->0];
        Some(absolute_path_message(name, "output_paths"@, true, p))
    } else if first_match(views(task.output_paths_on_failure@), absolute_pred()) is Some {
        let p = views(task.output_paths_on_failure@)[first_match(
            views(task.output_paths_on_failure@),
            absolute_pred(),
        )->0];
        Some(absolute_path_message(name, "output_paths_on_failure"@, true, p))
    } else if first_comma_mount(task.mount_paths@) is Some {
        let m = task.mount_paths@[first_comma_mount(task.mount_paths@)->0];
        Some(
            "Mount path "@ + code(mapping_text(m)) + " of task "@ + code(name) + " has a "@ + code(
                ","@,
            ) + "."@,
        )
    } else if task.location is Some && !unix_absolute(task.location->0@) {
        Some(
            "Task "@ + code(name) + " has a relative "@ + code("location"@) + ": "@ + code(
                task.location->0@,
            ) + "."@,
        )
    } else if task.mount_paths@.len() > 0 && task.cache {
        Some(caching_message(name, " has "@ + code("mount_paths"@)))
    } else if task.ports@.len() > 0 && task.cache {
        Some(caching_message(name, " exposes ports"@))
    } else if task.extra_docker_arguments@.len() > 0 && task.cache {
        Some(caching_message(name, " has extra Docker arguments"@))
    } else {
        None
    }
}

/// Whether no path of `paths` is absolute.
pub open spec fn all_relative(paths: Seq<String>) -> bool {
    forall|i: int| 0 <= i < paths.len() ==> !unix_absolute(#[trigger] paths[i]@)
}

/// Whether a task keeps every rule but those on caching: no variable name holds `=`, the
/// input, excluded, output and failure output paths are relative, no mount path holds `,`,
/// and a location, when given, is absolute.
pub open spec fn task_paths_valid(task: Task) -> bool {
    &&& forall|i: int|
        0 <= i < task.environment@.len() ==> !has_char(#[trigger] task.environment@[i].0, '=')
    &&& all_relative(task.input_paths@)
    &&& all_relative(task.excluded_input_paths@)
    &&& all_relative(task.output_paths@)
    &&& all_relative(task.output_paths_on_failure@)
    &&& forall|i: int|
        0 <= i < task.mount_paths@.len() ==> !mount_has_comma(#[trigger] task.mount_paths@[i])
    &&& (task.location matches Some(l) ==> unix_absolute(l@))
}

proof fn lemma_first_match_none(s: Seq<Seq<char>>, p: spec_fn(Seq<char>) -> bool)
    requires
        forall|i: int| 0 <= i < s.len() ==> !p(#[trigger] s[i]),
    ensures
        first_match(s, p) is None,
{
    if exists|i: int| is_first(s, p, i) {
        let i = choose|i: int| is_first(s, p, i);
        assert(p(s[i]));
    }
}

/// A task that keeps the rules on names and paths has no problem but one of caching.
proof fn lemma_paths_valid_skip(name: Seq<char>, task: Task)
    requires
        task_paths_valid(task),
    ensures
        task_problem(name, task) == (if task.cache && task.mount_paths@.len() > 0 {
            Some(caching_message(name, " has "@ + code("mount_paths"@)))
        } else if task.cache && task.ports@.len() > 0 {
            Some(caching_message(name, " exposes ports"@))
        } else if task.cache && task.extra_docker_arguments@.len() > 0 {
            Some(caching_message(name, " has extra Docker arguments"@))
        } else {
            None
        }),
{
    let env = env_keys(task.environment@);
    assert forall|i: int| 0 <= i < env.len() implies !has_equals_pred()(#[trigger] env[i]) by {
        assert(env[i] == task.environment@[i].0);
    }
    lemma_first_match_none(env, has_equals_pred());
    let lists = seq![
        task.input_paths@,
        task.excluded_input_paths@,
        task.output_paths@,
        task.output_paths_on_failure@,
    ];
    assert forall|j: int| 0 <= j < 4 implies first_match(views(#[trigger] lists[j]), absolute_pred())
        is None by {
        let ps = lists[j];
        assert(all_relative(ps));
        assert forall|i: int| 0 <= i < views(ps).len() implies !absolute_pred()(
            #[trigger] views(ps)[i],
        ) by {
            assert(views(ps)[i] == ps[i]@);
        }
        lemma_first_match_none(views(ps), absolute_pred());
    }
    assert(lists[0] == task.input_paths@);
    assert(lists[1] == task.excluded_input_paths@);
    assert(lists[2] == task.output_paths@);
    assert(lists[3] == task.output_paths_on_failure@);
    assert(first_comma_mount(task.mount_paths@) is None);
}

/// A cached task may not have mount paths, ports or extra Docker arguments: with any of them
/// (even one extra argument), the task is rejected.
pub proof fn law_cached_task_rejects_docker_extras(name: Seq<char>, task: Task)
    requires
        task.cache,
        task.mount_paths@.len() > 0 || task.ports@.len() > 0
            || task.extra_docker_arguments@.len() > 0,
    ensures
        task_problem(name, task) is Some,
{
}

/// A cached task that keeps every other rule and has extra Docker arguments, but no mount
/// paths or ports, is rejected for the extra arguments with the caching message.
pub proof fn law_extra_arguments_need_caching_off(name: Seq<char>, task: Task)
    requires
        task_paths_valid(task),
        task.cache,
        task.mount_paths@.len() == 0,
        task.ports@.len() == 0,
        task.extra_docker_arguments@.len() > 0,
    ensures
        task_problem(name, task) == Some(caching_message(name, " has extra Docker arguments"@)),
{
    lemma_paths_valid_skip(name, task);
}

/// A task that keeps the rules on names and paths, and either turns caching off or has no
/// mount paths, ports or extra Docker arguments, is accepted.
pub proof fn law_valid_task_accepted(name: Seq<char>, task: Task)
    requires
        task_paths_valid(task),
        !task.cache || (task.mount_paths@.len() == 0 && task.ports@.len() == 0
            && task.extra_docker_arguments@.len() == 0),
    ensures
        task_problem(name, task) is None,
{
    lemma_paths_valid_skip(name, task);
}

/// A `FailedToRunUserCommand` error with the given message and no cause.
pub open spec fn user_error(e: SealedDatabaseError, message: Seq<char>) -> bool {
    e matches SealedDatabaseError::FailedToRunUserCommand(m, c) && m@ == message && c is None
}

fn user_error_from(message: String) -> (e: SealedDatabaseError)
    ensures
        user_error(e, message@),
{
    SealedDatabaseError::FailedToRunUserCommand(message, None)
}

fn absolute_path_error(name: &str, field: &str, in_list: bool, path: &String) -> (e:
    SealedDatabaseError)
    ensures
        user_error(e, absolute_path_message(name@, field@, in_list, path@)),
{
    let mut m = "Task ".to_owned();
    m.append(code_str(name).as_str());
    if in_list {
        m.append(" has an absolute path in ");
    } else {
        m.append(" has an absolute ");
    }
    m.append(code_str(field).as_str());
    m.append(": ");
    m.append(code_str(path.as_str()).as_str());
    m.append(".");
    user_error_from(m)
}

fn caching_error(name: &str, what: &str) -> (e: SealedDatabaseError)
    ensures
        user_error(e, caching_message(name@, what@)),
{
    let mut m = "Task ".to_owned();
    m.append(code_str(name).as_str());
    m.append(what);
    m.append(" but does not disable caching. To fix this, set ");
    m.append(code_str("cache: false").as_str());
    m.append(" for this ");
    m.append("task.");
    user_error_from(m)
}

/// Checks that a task is valid.
pub fn check_task(name: &str, task: &Task) -> (r: Result<(), SealedDatabaseError>)
    ensures
        match task_problem(name@, *task) {
            None => r is Ok,
            Some(message) => r matches Err(e) && user_error(e, message),
        },
{
    // Environment variable names must not contain `=`.
    if let Some(i) = first_key_with_equals(&task.environment) {
        let mut m = "Environment variable ".to_owned();
        m.append(code_str(task.environment.key_at(i).as_str()).as_str());
        m.append(" of task ");
        m.append(code_str(name).as_str());
        m.append(" contains ");
        m.append(code_str("=").as_str());
        m.append(".");
        assert(env_keys(task.environment@)[i as int] == task.environment@[i as int].0);
        return Err(user_error_from(m));
    }
    // The input, excluded input and output paths must be relative.
    if let Some(i) = first_absolute(&task.input_paths) {
        assert(views(task.input_paths@)[i as int] == task.input_paths@[i as int]@);
        return Err(absolute_path_error(name, "input_path", false, &task.input_paths[i]));
    }
    if let Some(i) = first_absolute(&task.excluded_input_paths) {
        assert(views(task.excluded_input_paths@)[i as int] == task.excluded_input_paths@[i as int]@);
        return Err(
            absolute_path_error(name, "excluded_input_path", false, &task.excluded_input_paths[i]),
        );
    }
    if let Some(i) = first_absolute(&task.output_paths) {
        assert(views(task.output_paths@)[i as int] == task.output_paths@[i as int]@);
        return Err(absolute_path_error(name, "output_paths", true, &task.output_paths[i]));
    }
    if let Some(i) = first_absolute(&task.output_paths_on_failure) {
        assert(views(task.output_paths_on_failure@)[i as int] == task.output_paths_on_failure@[i as int]@);
        return Err(
            absolute_path_error(
                name,
                "output_paths_on_failure",
                true,
                &task.output_paths_on_failure[i],
            ),
        );
    }
    // Mount paths must not contain commas.
    if let Some(i) = first_mount_with_comma(&task.mount_paths) {
        proof {
            let s = task.mount_paths@;
            let c = choose|k: int|
                0 <= k < s.len() && mount_has_comma(s[k]) && forall|j: int|
                    0 <= j < k ==> !mount_has_comma(#[trigger] s[j]);
            if c < i {
                assert(!mount_has_comma(s[c]));
            } else if c > i {
                assert(!mount_has_comma(s[i as int]));
            }
        }
        let mut m = "Mount path ".to_owned();
        m.append(code_str(task.mount_paths[i].to_text().as_str()).as_str());
        m.append(" of task ");
        m.append(code_str(name).as_str());
        m.append(" has a ");
        m.append(code_str(",").as_str());
        m.append(".");
        return Err(user_error_from(m));
    }
    // The location must be absolute.
    if let Some(location) = &task.location {
        if !unix_path_is_absolute(location.as_str()) {
            let mut m = "Task ".to_owned();
            m.append(code_str(name).as_str());
            m.append(" has a relative ");
            m.append(code_str("location").as_str());
            m.append(": ");
            m.append(code_str(location.as_str()).as_str());
            m.append(".");
            return Err(user_error_from(m));
        }
    }
    // Mount paths, ports and extra Docker arguments each require caching to be off.
    if task.mount_paths.len() > 0 && task.cache {
        let mut what = " has ".to_owned();
        what.append(code_str("mount_paths").as_str());
        return Err(caching_error(name, what.as_str()));
    }
    if task.ports.len() > 0 && task.cache {
        return Err(caching_error(name, " exposes ports"));
    }
    if task.extra_docker_arguments.len() > 0 && task.cache {
        return Err(caching_error(name, " has extra Docker arguments"));
    }
    Ok(())
}

/// The hash that stands for a task's variables and their values: for each variable name in
/// the order of strings, the running hash is combined with the name and then with the value.
pub open spec fn env_hash(names: Seq<Seq<char>>, env: StrMap<String>) -> Seq<char>
    decreases names.len(),
{
    if names.len() == 0 {
        Seq::empty()
    } else {
        let prev = env_hash(names.drop_last(), env);
        let with_name = combine_text(encode_utf8(prev), encode_utf8(names.last()));
        combine_text(encode_utf8(with_name), encode_utf8(env.spec_get(names.last())->0@))
    }
}

/// Combines a running hash with some text.
pub open spec fn step(key: Seq<char>, text: Seq<char>) -> Seq<char> {
    combine_text(encode_utf8(key), encode_utf8(text))
}

/// The image name of a task: the previous image when the task has no variables, no input
/// paths and no command; otherwise `repo:task-KEY`, where KEY is the hash of the cache version
/// combined in turn with the previous image, the variables, the input files hash, the location,
/// the user and the command.
pub open spec fn image_name_text(
    previous_image: Seq<char>,
    docker_repo: Seq<char>,
    taskfile: TaskFile,
    task: Task,
    input_files_hash: Seq<char>,
    environment: StrMap<String>,
) -> Seq<char> {
    let command = task_command(taskfile, task);
    if task.environment@.len() == 0 && task.input_paths@.len() == 0 && command.len() == 0 {
        previous_image
    } else {
        let k0 = hash_text(encode_utf8(decimal_text(CACHE_VERSION as nat)));
        let k1 = step(k0, previous_image);
        let k2 = step(k1, env_hash(sort_texts(env_keys(task.environment@)), environment));
        let k3 = step(k2, input_files_hash);
        let k4 = step(k3, task_location(taskfile, task));
        let k5 = step(k4, task_user(taskfile, task));
        let k6 = step(k5, command);
        docker_repo + ":task-"@ + k6
    }
}

/// The keys of a map, in order.
fn map_keys<T>(m: &StrMap<T>) -> (r: Vec<String>)
    ensures
        views(r@) == m@.map_values(|e: (Seq<char>, T)| e.0),
{
    let mut r: Vec<String> = Vec::new();
    let mut i: usize = 0;
    while i < m.len()
        invariant
            i <= m@.len(),
            views(r@) == m@.take(i as int).map_values(|e: (Seq<char>, T)| e.0),
        decreases m@.len() - i,
    {
        let ghost before = r@;
        let k = m.key_at(i).clone();
        r.push(k);
        assert(r@ == before.push(k));
        assert(views(r@) =~= views(before).push(m@[i as int].0));
        assert(m@.take(i + 1) =~= m@.take(i as int).push(m@[i as int]));
        assert(m@.take(i + 1).map_values(|e: (Seq<char>, T)| e.0) =~= m@.take(i as int).map_values(
            |e: (Seq<char>, T)| e.0,
        ).push(m@[i as int].0));
        i = i + 1;
    }
    assert(m@.take(m@.len() as int) =~= m@);
    r
}

/// The image name for a task, given the image of the previous task (or the base image), the
/// Docker repository, the hash of the task's input files and the values of its variables.
pub fn image_name(
    previous_image: &str,
    docker_repo: &str,
    taskfile: &TaskFile,
    task: &Task,
    input_files_hash: &str,
    environment: &StrMap<String>,
) -> (r: String)
    requires
        forall|i: int|
            0 <= i < task.environment@.len() ==> environment.has_key(
                #[trigger] task.environment@[i].0,
            ),
    ensures
        r@ == image_name_text(
            previous_image@,
            docker_repo@,
            *taskfile,
            *task,
            input_files_hash@,
            *environment,
        ),
{
    let command = command(taskfile, task);
    if task.environment.is_empty() && task.input_paths.len() == 0 && command.unicode_len() == 0 {
        return previous_image.to_owned();
    }
    let mut cache_key: String = decimal(CACHE_VERSION).crypto_hash();
    cache_key = combine(&cache_key, previous_image);
    let environment_hash = variables_hash(task, environment);
    cache_key = combine(&cache_key, &environment_hash);
    cache_key = combine(&cache_key, input_files_hash);
    cache_key = combine(&cache_key, &location(taskfile, task));
    cache_key = combine(&cache_key, &user(taskfile, task));
    cache_key = combine(&cache_key, &command);
    let mut name = docker_repo.to_owned();
    name.append(":task-");
    name.append(cache_key.as_str());
    name
}

/// The hash that stands for a task's variables and their values in `environment`.
fn variables_hash(task: &Task, environment: &StrMap<String>) -> (r: String)
    requires
        forall|i: int|
            0 <= i < task.environment@.len() ==> environment.has_key(
                #[trigger] task.environment@[i].0,
            ),
    ensures
        r@ == env_hash(sort_texts(env_keys(task.environment@)), *environment),
{
    let mut environment_hash = String::new();
    let keys = map_keys(&task.environment);
    assert(views(keys@) == env_keys(task.environment@));
    let variables = sorted_strings(&keys);
    let ghost names = views(variables@);
    let mut i: usize = 0;
    while i < variables.len()
        invariant
            names == views(variables@),
            names == sort_texts(env_keys(task.environment@)),
            i <= names.len(),
            environment_hash@ == env_hash(names.take(i as int), *environment),
            forall|k: int|
                0 <= k < task.environment@.len() ==> environment.has_key(
                    #[trigger] task.environment@[k].0,
                ),
        decreases names.len() - i,
    {
        let variable = &variables[i];
        proof {
            assert forall|k: int| 0 <= k < env_keys(task.environment@).len() implies environment.has_key(
                #[trigger] env_keys(task.environment@)[k],
            ) by {
                assert(env_keys(task.environment@)[k] == task.environment@[k].0);
            }
            lemma_sorted_keys_present(env_keys(task.environment@), *environment, i as int);
            assert(names.take(i + 1).drop_last() =~= names.take(i as int));
            assert(names.take(i + 1).last() == variable@);
        }
        environment_hash = combine(&environment_hash, variable);
        let value = environment.get(variable.as_str()).unwrap();
        environment_hash = combine(&environment_hash, value);
        i = i + 1;
    }
    proof {
        assert(names.take(names.len() as int) =~= names);
    }
    environment_hash
}

/// Sorting keeps the items: every item of the sorted sequence is one of the originals.
pub proof fn lemma_sort_items(s: Seq<Seq<char>>)
    ensures
        sort_texts(s).len() == s.len(),
        forall|j: int| 0 <= j < sort_texts(s).len() ==> s.contains(#[trigger] sort_texts(s)[j]),
    decreases s.len(),
{
    if s.len() > 0 {
        lemma_sort_items(s.drop_last());
        lemma_insert_items(sort_texts(s.drop_last()), s.last());
        let r = sort_texts(s);
        assert forall|j: int| 0 <= j < r.len() implies s.contains(#[trigger] r[j]) by {
            let p = sort_texts(s.drop_last());
            if r[j] != s.last() {
                assert(p.contains(r[j]));
                let k = choose|k: int| 0 <= k < p.len() && p[k] == r[j];
                assert(s.drop_last().contains(r[j]));
                let m = choose|m: int| 0 <= m < s.drop_last().len() && s.drop_last()[m] == r[j];
                assert(s[m] == r[j]);
            } else {
                assert(s[s.len() - 1] == r[j]);
            }
        }
    }
}

proof fn lemma_insert_items(s: Seq<Seq<char>>, x: Seq<char>)
    ensures
        crate::ordering::insert_sorted(s, x).len() == s.len() + 1,
        forall|j: int|
            0 <= j < s.len() + 1 ==> #[trigger] crate::ordering::insert_sorted(s, x)[j] == x
                || s.contains(crate::ordering::insert_sorted(s, x)[j]),
    decreases s.len(),
{
    if s.len() > 0 && crate::ordering::text_lt(s[0], x) {
        lemma_insert_items(s.drop_first(), x);
        let r = crate::ordering::insert_sorted(s, x);
        assert forall|j: int| 0 <= j < s.len() + 1 implies #[trigger] r[j] == x || s.contains(
            r[j],
        ) by {
            if j == 0 {
                assert(r[0] == s[0]);
            } else {
                let q = crate::ordering::insert_sorted(s.drop_first(), x);
                assert(r[j] == q[j - 1]);
                if q[j - 1] != x {
                    let k = choose|k: int| 0 <= k < s.drop_first().len() && s.drop_first()[k] == q[j - 1];
                    assert(s[k + 1] == r[j]);
                }
            }
        }
    } else {
        let r = crate::ordering::insert_sorted(s, x);
        assert forall|j: int| 0 <= j < s.len() + 1 implies #[trigger] r[j] == x || s.contains(
            r[j],
        ) by {
            if j > 0 {
                assert(r[j] == s[j - 1]);
            }
        }
    }
}

/// Every variable name, once sorted, has a value in `env` when every name does.
proof fn lemma_sorted_keys_present(keys: Seq<Seq<char>>, env: StrMap<String>, i: int)
    requires
        forall|k: int| 0 <= k < keys.len() ==> env.has_key(#[trigger] keys[k]),
        0 <= i < sort_texts(keys).len(),
    ensures
        env.has_key(sort_texts(keys)[i]),
{
    lemma_sort_items(keys);
    let k = choose|k: int| 0 <= k < keys.len() && keys[k] == sort_texts(keys)[i];
    assert(env.has_key(keys[k]));
}

/// The hash of the variables depends only on the values they have, not on how the map of
/// values was built.
proof fn lemma_env_hash_values(names: Seq<Seq<char>>, e1: StrMap<String>, e2: StrMap<String>)
    requires
        forall|k: Seq<char>| opt_view(#[trigger] e1.spec_get(k)) == opt_view(e2.spec_get(k)),
    ensures
        env_hash(names, e1) == env_hash(names, e2),
    decreases names.len(),
{
    if names.len() > 0 {
        lemma_env_hash_values(names.drop_last(), e1, e2);
        assert(opt_view(e1.spec_get(names.last())) == opt_view(e2.spec_get(names.last())));
    }
}

/// The names of distinct entries are distinct.
proof fn lemma_env_keys_distinct(env: Seq<(Seq<char>, Option<String>)>)
    requires
        keys_distinct(env),
    ensures
        env_keys(env).no_duplicates(),
{
    assert forall|i: int, j: int|
        0 <= i < env_keys(env).len() && 0 <= j < env_keys(env).len() && i != j implies env_keys(
        env,
    )[i] != env_keys(env)[j] by {
        assert(env_keys(env)[i] == env[i].0 && env_keys(env)[j] == env[j].0);
    }
}

/// A task reuses the previous image exactly when it has no variables, no input paths and an
/// empty command. Any other task, one with input paths among them, gets an image of its own:
/// the Docker repository, `:task-`, and a key of 64 lowercase hexadecimal digits.
pub proof fn law_image_name_shape(
    previous_image: Seq<char>,
    docker_repo: Seq<char>,
    taskfile: TaskFile,
    task: Task,
    input_files_hash: Seq<char>,
    environment: StrMap<String>,
)
    ensures
        ({
            let r = image_name_text(
                previous_image,
                docker_repo,
                taskfile,
                task,
                input_files_hash,
                environment,
            );
            let reuses = task.environment@.len() == 0 && task.input_paths@.len() == 0
                && task_command(taskfile, task).len() == 0;
            &&& reuses ==> r == previous_image
            &&& !reuses ==> exists|key: Seq<char>|
                #![trigger docker_repo + ":task-"@ + key]
                key.len() == 64 && is_lower_hex(key) && r == docker_repo + ":task-"@ + key
        }),
{
    assert forall|k: Seq<char>, t: Seq<char>| #[trigger] step(k, t).len() == 64 && is_lower_hex(
        step(k, t),
    ) by {
        lemma_hash_text_digits(combine_input(encode_utf8(k), encode_utf8(t)));
    }
    let r = image_name_text(
        previous_image,
        docker_repo,
        taskfile,
        task,
        input_files_hash,
        environment,
    );
    let head = docker_repo + ":task-"@;
    if r.len() >= head.len() {
        let key = r.subrange(head.len() as int, r.len() as int);
        if !(task.environment@.len() == 0 && task.input_paths@.len() == 0 && task_command(
            taskfile,
            task,
        ).len() == 0) {
            assert(r =~= head + key);
            assert(key.len() == 64);
            assert(is_lower_hex(key));
        }
    }
}

/// The image key covers what a task's image is built from: two tasks that get their own
/// images in the same repository get the same image name only when they share the previous
/// image, the values of their variables, the input files hash, the location, the user and the
/// command, unless SHA-256 has a collision.
pub proof fn law_image_key_separates(
    docker_repo: Seq<char>,
    taskfile: TaskFile,
    prev1: Seq<char>,
    task1: Task,
    files1: Seq<char>,
    env1: StrMap<String>,
    prev2: Seq<char>,
    task2: Task,
    files2: Seq<char>,
    env2: StrMap<String>,
)
    requires
        !(task1.environment@.len() == 0 && task1.input_paths@.len() == 0 && task_command(
            taskfile,
            task1,
        ).len() == 0),
        !(task2.environment@.len() == 0 && task2.input_paths@.len() == 0 && task_command(
            taskfile,
            task2,
        ).len() == 0),
        image_name_text(prev1, docker_repo, taskfile, task1, files1, env1) == image_name_text(
            prev2,
            docker_repo,
            taskfile,
            task2,
            files2,
            env2,
        ),
    ensures
        sha256_has_collision() || {
            &&& prev1 == prev2
            &&& env_hash(sort_texts(env_keys(task1.environment@)), env1) == env_hash(
                sort_texts(env_keys(task2.environment@)),
                env2,
            )
            &&& files1 == files2
            &&& task_location(taskfile, task1) == task_location(taskfile, task2)
            &&& task_user(taskfile, task1) == task_user(taskfile, task2)
            &&& task_command(taskfile, task1) == task_command(taskfile, task2)
        },
{
    let k0 = hash_text(encode_utf8(decimal_text(CACHE_VERSION as nat)));
    let a1 = step(k0, prev1);
    let a2 = step(a1, env_hash(sort_texts(env_keys(task1.environment@)), env1));
    let a3 = step(a2, files1);
    let a4 = step(a3, task_location(taskfile, task1));
    let a5 = step(a4, task_user(taskfile, task1));
    let a6 = step(a5, task_command(taskfile, task1));
    let b1 = step(k0, prev2);
    let b2 = step(b1, env_hash(sort_texts(env_keys(task2.environment@)), env2));
    let b3 = step(b2, files2);
    let b4 = step(b3, task_location(taskfile, task2));
    let b5 = step(b4, task_user(taskfile, task2));
    let b6 = step(b5, task_command(taskfile, task2));
    let head = docker_repo + ":task-"@;
    assert((head + a6).len() == (head + b6).len());
    assert(a6 =~= (head + a6).subrange(head.len() as int, (head + a6).len() as int));
    assert(b6 =~= (head + b6).subrange(head.len() as int, (head + b6).len() as int));
    law_text_combine_separates(a5, task_command(taskfile, task1), b5, task_command(taskfile, task2));
    law_text_combine_separates(a4, task_user(taskfile, task1), b4, task_user(taskfile, task2));
    law_text_combine_separates(
        a3,
        task_location(taskfile, task1),
        b3,
        task_location(taskfile, task2),
    );
    law_text_combine_separates(a2, files1, b2, files2);
    law_text_combine_separates(
        a1,
        env_hash(sort_texts(env_keys(task1.environment@)), env1),
        b1,
        env_hash(sort_texts(env_keys(task2.environment@)), env2),
    );
    law_text_combine_separates(k0, prev1, k0, prev2);
}

/// The image name of a task does not depend on the order in which its variables were
/// declared, nor on the order in which their values were gathered: two tasks that differ only
/// in that order, given the same values, get the same image name.
pub proof fn law_image_name_ignores_variable_order(
    previous_image: Seq<char>,
    docker_repo: Seq<char>,
    taskfile: TaskFile,
    t1: Task,
    t2: Task,
    input_files_hash: Seq<char>,
    e1: StrMap<String>,
    e2: StrMap<String>,
)
    requires
        t2 == (Task { environment: t2.environment, ..t1 }),
        keys_distinct(t1.environment@),
        keys_distinct(t2.environment@),
        forall|k: Seq<char>| #[trigger] t1.environment.has_key(k) <==> t2.environment.has_key(k),
        forall|k: Seq<char>| opt_view(#[trigger] e1.spec_get(k)) == opt_view(e2.spec_get(k)),
    ensures
        image_name_text(previous_image, docker_repo, taskfile, t1, input_files_hash, e1)
            == image_name_text(previous_image, docker_repo, taskfile, t2, input_files_hash, e2),
{
    let k1 = env_keys(t1.environment@);
    let k2 = env_keys(t2.environment@);
    lemma_env_keys_distinct(t1.environment@);
    lemma_env_keys_distinct(t2.environment@);
    assert forall|y: Seq<char>| k1.contains(y) <==> k2.contains(y) by {
        if k1.contains(y) {
            let i = choose|i: int| 0 <= i < k1.len() && k1[i] == y;
            assert(t1.environment@[i].0 == y);
            assert(t1.environment.has_key(y));
            assert(t2.environment.has_key(y));
            let j = choose|j: int| 0 <= j < t2.environment@.len() && t2.environment@[j].0 == y;
            assert(k2[j] == y);
        }
        if k2.contains(y) {
            let i = choose|i: int| 0 <= i < k2.len() && k2[i] == y;
            assert(t2.environment@[i].0 == y);
            assert(t2.environment.has_key(y));
            assert(t1.environment.has_key(y));
            let j = choose|j: int| 0 <= j < t1.environment@.len() && t1.environment@[j].0 == y;
            assert(k1[j] == y);
        }
    }
    law_sort_ignores_order(k1, k2);
    lemma_env_hash_values(sort_texts(k2), e1, e2);
    if t1.environment@.len() > 0 {
        assert(t1.environment.has_key(t1.environment@[0].0));
        assert(t2.environment@.len() > 0);
    }
    if t2.environment@.len() > 0 {
        assert(t2.environment.has_key(t2.environment@[0].0));
        assert(t1.environment@.len() > 0);
    }
}

} // verus!
