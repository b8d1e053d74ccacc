use vstd::prelude::*;
use vstd::string::*;

use crate::deps_graph::{acyclic, edge, find_cycle, graph_of, is_cycle, well_formed};
use crate::error::{opt_view, SealedDatabaseError};
use crate::paths::{unix_absolute, unix_path_is_absolute};
use crate::str_map::{find_key, keys_distinct, StrMap};
use crate::task::{check_task, task_problem, user_error, Task, DEFAULT_LOCATION, DEFAULT_USER};
use crate::text::{code, code_str, series, series_of, views};

verus! {

/// A task file: a base image, an optional default task, defaults for the tasks' location,
/// user and command prefix, and the tasks by name.
#[derive(Clone, Debug, PartialEq, Eq)]
pub struct TaskFile {
    pub image: String,
    /// When present, must name a task.
    pub default: Option<String>,
    /// Must be absolute.
    pub location: String,
    pub user: String,
    pub command_prefix: String,
    pub tasks: StrMap<Task>,
}

/// The default location of a task file.
pub fn default_location() -> (r: String)
    ensures
        r@ == DEFAULT_LOCATION@,
{
    DEFAULT_LOCATION.to_owned()
}

/// The default user of a task file.
pub fn default_user() -> (r: String)
    ensures
        r@ == DEFAULT_USER@,
{
    DEFAULT_USER.to_owned()
}

/// The location of a task: its own, or else the task file's.
pub open spec fn task_location(task_file: TaskFile, task: Task) -> Seq<char> {
    match task.location {
        Some(l) => l@,
        None => task_file.location@,
    }
}

/// The user of a task: its own, or else the task file's.
pub open spec fn task_user(task_file: TaskFile, task: Task) -> Seq<char> {
    match task.user {
        Some(u) => u@,
        None => task_file.user@,
    }
}

/// The command of a task: the command prefix (the task's own, or else the task file's), then a
/// line break when both prefix and command are nonempty, then the command.
pub open spec fn task_command(task_file: TaskFile, task: Task) -> Seq<char> {
    let prefix = match task.command_prefix {
        Some(p) => p@,
        None => task_file.command_prefix@,
    };
    if prefix.len() > 0 && task.command@.len() > 0 {
        prefix + "\n"@ + task.command@
    } else {
        prefix + task.command@
    }
}

/// The location of a task, defaulting to the task file's.
pub fn location(task_file: &TaskFile, task: &Task) -> (r: String)
    ensures
        r@ == task_location(*task_file, *task),
{
    match &task.location {
        Some(l) => l.clone(),
        None => task_file.location.clone(),
    }
}

/// The user of a task, defaulting to the task file's.
pub fn user(task_file: &TaskFile, task: &Task) -> (r: String)
    ensures
        r@ == task_user(*task_file, *task),
{
    match &task.user {
        Some(u) => u.clone(),
        None => task_file.user.clone(),
    }
}

/// The command of a task, including the command prefix.
pub fn command(task_file: &TaskFile, task: &Task) -> (r: String)
    ensures
        r@ == task_command(*task_file, *task),
{
    let mut command = String::new();
    match &task.command_prefix {
        Some(p) => command.append(p.as_str()),
        None => command.append(task_file.command_prefix.as_str()),
    }
    if command.unicode_len() > 0 && task.command.as_str().unicode_len() > 0 {
        command.append("\n");
    }
    command.append(task.command.as_str());
    command
}

/// The value a task's variable takes: the value in the process environment `env`, or else the
/// variable's default. `None` when it has neither.
pub open spec fn resolve_var(entry: (Seq<char>, Option<String>), env: StrMap<String>) -> Option<
    Seq<char>,
> {
    match env.spec_get(entry.0) {
        Some(v) => Some(v@),
        None => match entry.1 {
            Some(d) => Some(d@),
            None => None,
        },
    }
}

/// The variables among `entries` that take no value, in order.
pub open spec fn missing_vars(
    entries: Seq<(Seq<char>, Option<String>)>,
    env: StrMap<String>,
) -> Seq<Seq<char>>
    decreases entries.len(),
{
    if entries.len() == 0 {
        Seq::empty()
    } else {
        let prev = missing_vars(entries.drop_last(), env);
        if resolve_var(entries.last(), env) is None {
            prev.push(entries.last().0)
        } else {
            prev
        }
    }
}

/// A variable that the process environment holds takes that value, whether or not it has a
/// default; one that the process environment lacks takes its default, and no value without one.
pub proof fn law_variable_value(entry: (Seq<char>, Option<String>), env: StrMap<String>)
    ensures
        env.has_key(entry.0) ==> env.spec_get(entry.0) is Some && resolve_var(entry, env) == Some(
            env.spec_get(entry.0)->0@,
        ),
        !env.has_key(entry.0) ==> resolve_var(entry, env) == opt_view(entry.1),
{
}

/// When the process environment holds every variable of a task, every variable takes its value
/// from there, so `environment` succeeds and gives each variable that value, and none is missing.
pub proof fn law_environment_all_set(task: Task, env: StrMap<String>)
    requires
        forall|i: int|
            0 <= i < task.environment@.len() ==> env.has_key(#[trigger] task.environment@[i].0),
    ensures
        forall|i: int|
            0 <= i < task.environment@.len() ==> resolve_var(#[trigger] task.environment@[i], env)
                == Some(env.spec_get(task.environment@[i].0)->0@),
        missing_vars(task.environment@, env).len() == 0,
{
    lemma_none_missing(task.environment@, env);
}

proof fn lemma_none_missing(entries: Seq<(Seq<char>, Option<String>)>, env: StrMap<String>)
    requires
        forall|i: int| 0 <= i < entries.len() ==> env.has_key(#[trigger] entries[i].0),
    ensures
        missing_vars(entries, env).len() == 0,
    decreases entries.len(),
{
    if entries.len() > 0 {
        let prev = entries.drop_last();
        assert forall|i: int| 0 <= i < prev.len() implies env.has_key(#[trigger] prev[i].0) by {
            assert(prev[i] == entries[i]);
        }
        lemma_none_missing(prev, env);
        assert(env.has_key(entries[entries.len() - 1].0));
    }
}

/// Fetches the values of a task's variables from the process environment `env`. Every
/// variable takes its value from `env` when present there, or else its default. When some
/// variable has neither, the names of all such variables are returned, in order.
pub fn environment(task: &Task, env: &StrMap<String>) -> (r: Result<StrMap<String>, Vec<String>>)
    ensures
        r is Ok <==> forall|i: int|
            0 <= i < task.environment@.len() ==> resolve_var(#[trigger] task.environment@[i], *env)
                is Some,
        r matches Ok(m) ==> {
            &&& m@.len() == task.environment@.len()
            &&& forall|i: int|
                0 <= i < m@.len() ==> #[trigger] m@[i].0 == task.environment@[i].0 && Some(
                    m@[i].1@,
                ) == resolve_var(task.environment@[i], *env)
        },
        r matches Err(v) ==> views(v@) == missing_vars(task.environment@, *env),
{
    let vars = &task.environment;
    vars.lemma_distinct();
    let ghost entries = vars@;
    let mut result: StrMap<String> = StrMap::new();
    let mut violations: Vec<String> = Vec::new();
    let mut i: usize = 0;
    while i < vars.len()
        invariant
            entries == vars@,
            keys_distinct(entries),
            i <= entries.len(),
            violations@.len() == 0 ==> result@.len() == i,
            violations@.len() == 0 ==> forall|j: int|
                0 <= j < i ==> #[trigger] result@[j].0 == entries[j].0 && Some(result@[j].1@)
                    == resolve_var(entries[j], *env),
            forall|j: int| 0 <= j < result@.len() ==> exists|l: int| 0 <= l < i && #[trigger] result@[j].0 == entries[l].0,
            views(violations@) == missing_vars(entries.take(i as int), *env),
            (violations@.len() == 0) <==> forall|j: int|
                0 <= j < i ==> resolve_var(#[trigger] entries[j], *env) is Some,
        decreases entries.len() - i,
    {
        let name = vars.key_at(i);
        let default = vars.value_at(i);
        let found = env.get(name.as_str());
        let ghost before = violations@;
        proof {
            assert(entries.take(i + 1).drop_last() =~= entries.take(i as int));
            assert(entries.take(i + 1).last() == entries[i as int]);
            assert(find_key(result@, name@) is None) by {
                if exists|j: int| 0 <= j < result@.len() && result@[j].0 == name@ {
                    let j = choose|j: int| 0 <= j < result@.len() && result@[j].0 == name@;
                    let l = choose|l: int| 0 <= l < i && #[trigger] result@[j].0 == entries[l].0;
                    assert(entries[l].0 == entries[i as int].0);
                }
            }
        }
        let ghost r0 = result@;
        match found {
            Some(v) => {
                result.insert(name.clone(), v.clone());
            },
            None => match default {
                Some(d) => {
                    result.insert(name.clone(), d.clone());
                },
                None => {
                    violations.push(name.clone());
                    assert(views(violations@) =~= views(before).push(name@));
                },
            },
        }
        proof {
            assert forall|j: int| 0 <= j < result@.len() implies exists|l: int|
                0 <= l < i + 1 && #[trigger] result@[j].0 == entries[l].0 by {
                if j < r0.len() {
                    assert(result@[j] == r0[j]);
                    let l = choose|l: int| 0 <= l < i && #[trigger] r0[j].0 == entries[l].0;
                    assert(result@[j].0 == entries[l].0);
                } else {
                    assert(result@[j].0 == entries[i as int].0);
                }
            }
            if violations@.len() == 0 {
                assert forall|j: int| 0 <= j < i + 1 implies #[trigger] result@[j].0 == entries[j].0
                    && Some(result@[j].1@) == resolve_var(entries[j], *env) by {
                    if j < i {
                        assert(result@[j] == r0[j]);
                    }
                }
            }
        }
        i = i + 1;
    }
    proof {
        assert(entries.take(entries.len() as int) =~= entries);
    }
    if violations.len() == 0 {
        Ok(result)
    } else {
        Err(violations)
    }
}

/// The dependencies of the `i`-th task.
pub open spec fn task_deps(tf: TaskFile, i: int) -> Seq<Seq<char>> {
    views(tf.tasks@[i].1.dependencies@)
}

/// The dependencies among `deps` that name no task of `tf`, in order.
pub open spec fn missing_deps(deps: Seq<Seq<char>>, tf: TaskFile) -> Seq<Seq<char>>
    decreases deps.len(),
{
    if deps.len() == 0 {
        Seq::empty()
    } else {
        let prev = missing_deps(deps.drop_last(), tf);
        if tf.tasks.has_key(deps.last()) {
            prev
        } else {
            prev.push(deps.last())
        }
    }
}

/// How the `i`-th task's invalid dependencies are reported.
pub open spec fn violation_item(tf: TaskFile, i: int) -> Seq<char> {
    code(tf.tasks@[i].0) + " ("@ + series(
        missing_deps(task_deps(tf, i), tf).map_values(|d: Seq<char>| code(d)),
    ) + ")"@
}

/// The reports for the first `n` tasks that have invalid dependencies, in task order.
pub open spec fn violation_items(tf: TaskFile, n: nat) -> Seq<Seq<char>>
    decreases n,
{
    if n == 0 {
        Seq::empty()
    } else {
        let prev = violation_items(tf, (n - 1) as nat);
        if missing_deps(task_deps(tf, n - 1), tf).len() > 0 {
            prev.push(violation_item(tf, n - 1))
        } else {
            prev
        }
    }
}

/// The default task, if one is named, is a task of the file.
pub open spec fn default_valid(tf: TaskFile) -> bool {
    match tf.default {
        Some(d) => tf.tasks.has_key(d@),
        None => true,
    }
}

/// Every dependency of every task names a task of the file.
pub open spec fn dependencies_exist(tf: TaskFile) -> bool {
    forall|i: int, k: int|
        0 <= i < tf.tasks@.len() && 0 <= k < task_deps(tf, i).len() ==> tf.tasks.has_key(
            #[trigger] task_deps(tf, i)[k],
        )
}

/// The task named `a` lists `b` among its dependencies.
pub open spec fn depends_on(tf: TaskFile, a: Seq<char>, b: Seq<char>) -> bool {
    exists|i: int, k: int|
        0 <= i < tf.tasks@.len() && tf.tasks@[i].0 == a && 0 <= k < task_deps(tf, i).len()
            && #[trigger] task_deps(tf, i)[k] == b
}

/// `c` names tasks each of which depends on the next, and the last on the first.
pub open spec fn is_dependency_cycle(tf: TaskFile, c: Seq<Seq<char>>) -> bool {
    &&& c.len() > 0
    &&& forall|i: int| 0 <= i < c.len() - 1 ==> depends_on(tf, #[trigger] c[i], c[i + 1])
    &&& depends_on(tf, c.last(), c[0])
}

/// The dependencies between the tasks of `tf` form no cycle.
pub open spec fn dependencies_acyclic(tf: TaskFile) -> bool {
    forall|c: Seq<Seq<char>>| !is_dependency_cycle(tf, c)
}

/// How a cycle of tasks is described.
pub open spec fn cycle_description(c: Seq<Seq<char>>) -> Seq<char> {
    if c.len() == 1 {
        code(c[0]) + " depends on itself."@
    } else if c.len() == 2 {
        code(c[0]) + " and "@ + code(c[1]) + " depend on each other."@
    } else {
        series(
            Seq::new(
                c.len(),
                |i: int| code(c[i]) + " depends on "@ + code(c[(i + 1) % (c.len() as int)]),
            ),
        ) + "."@
    }
}

/// The message for a task file whose default task or dependencies are invalid, if they are.
pub open spec fn dependency_problem(tf: TaskFile) -> Option<Seq<char>> {
    let items = violation_items(tf, tf.tasks@.len());
    if items.len() > 0 {
        if default_valid(tf) {
            Some(
                "The following tasks have invalid dependencies: "@ + series(items) + "."@,
            )
        } else {
            Some(
                "The default task "@ + code(tf.default->0@)
                    + " does not exist, and the following tasks have invalid dependencies: "@
                    + series(items) + "."@,
            )
        }
    } else if !default_valid(tf) {
        Some("The default task "@ + code(tf.default->0@) + " does not exist."@)
    } else {
        None
    }
}

proof fn lemma_missing_deps_empty(deps: Seq<Seq<char>>, tf: TaskFile)
    ensures
        missing_deps(deps, tf).len() == 0 <==> forall|k: int|
            0 <= k < deps.len() ==> tf.tasks.has_key(#[trigger] deps[k]),
    decreases deps.len(),
{
    if deps.len() > 0 {
        lemma_missing_deps_empty(deps.drop_last(), tf);
        assert forall|k: int| 0 <= k < deps.len() - 1 implies #[trigger] deps.drop_last()[k]
            == deps[k] by {}
        if forall|k: int| 0 <= k < deps.len() ==> tf.tasks.has_key(#[trigger] deps[k]) {
            assert(tf.tasks.has_key(deps[deps.len() - 1]));
            assert forall|k: int| 0 <= k < deps.len() - 1 implies tf.tasks.has_key(
                #[trigger] deps.drop_last()[k],
            ) by {
                assert(tf.tasks.has_key(deps[k]));
            }
        }
        if missing_deps(deps, tf).len() == 0 {
            assert forall|k: int| 0 <= k < deps.len() implies tf.tasks.has_key(#[trigger] deps[k]) by {
                if k < deps.len() - 1 {
                    assert(tf.tasks.has_key(deps.drop_last()[k]));
                }
            }
        }
    }
}

/// The codes of the dependencies in `deps` that name no task, in order.
fn missing_dependency_codes(deps: &Vec<String>, tf: &TaskFile) -> (r: Vec<String>)
    ensures
        views(r@) == missing_deps(views(deps@), *tf).map_values(|d: Seq<char>| code(d)),
{
    let ghost ds = views(deps@);
    let mut r: Vec<String> = Vec::new();
    let mut k: usize = 0;
    while k < deps.len()
        invariant
            ds == views(deps@),
            k <= deps@.len(),
            views(r@) == missing_deps(ds.take(k as int), *tf).map_values(|d: Seq<char>| code(d)),
        decreases deps.len() - k,
    {
        proof {
            assert(ds.take(k + 1).drop_last() =~= ds.take(k as int));
            assert(ds.take(k + 1).last() == deps@[k as int]@);
        }
        let ghost before = r@;
        if !tf.tasks.contains_key(deps[k].as_str()) {
            r.push(code_str(deps[k].as_str()));
            proof {
                assert(views(r@) =~= views(before).push(code(deps@[k as int]@)));
            }
        }
        k = k + 1;
    }
    proof {
        assert(ds.take(deps@.len() as int) =~= ds);
    }
    r
}

/// The `i`-th task is the first one that breaks a rule.
pub open spec fn is_first_bad_task(tf: TaskFile, i: int) -> bool {
    &&& 0 <= i < tf.tasks@.len()
    &&& task_problem(tf.tasks@[i].0, tf.tasks@[i].1) is Some
    &&& forall|j: int| 0 <= j < i ==> task_problem(tf.tasks@[j].0, #[trigger] tf.tasks@[j].1) is None
}

/// The message for a task file, checked in this order: the default task and the dependencies;
/// an absolute location; then each task in turn. `None` when the file is valid, and also when
/// its only fault is a cycle among the dependencies, which `dependencies_acyclic` decides.
pub open spec fn task_file_problem(tf: TaskFile) -> Option<Seq<char>> {
    if dependency_problem(tf) is Some {
        dependency_problem(tf)
    } else if !dependencies_acyclic(tf) {
        None
    } else if !unix_absolute(tf.location@) {
        Some(
            "TaskFile has a relative "@ + code("location"@) + ": "@ + code(tf.location@) + "."@,
        )
    } else if exists|i: int| is_first_bad_task(tf, i) {
        let i = choose|i: int| is_first_bad_task(tf, i);
        task_problem(tf.tasks@[i].0, tf.tasks@[i].1)
    } else {
        None
    }
}

/// Checks a task file that has been read: its default task and dependencies, its location,
/// and each of its tasks. The task file is handed back when it is valid.
pub fn check_task_file(task_file: TaskFile) -> (r: Result<TaskFile, SealedDatabaseError>)
    ensures
        r is Ok <==> (dependency_problem(task_file) is None && dependencies_acyclic(task_file)
            && task_file_problem(task_file) is None),
        r matches Ok(t) ==> t == task_file,
        match task_file_problem(task_file) {
            Some(m) => r matches Err(e) && user_error(e, m),
            None => r matches Err(e) ==> exists|c: Seq<Seq<char>>|
                is_dependency_cycle(task_file, c) && user_error(
                    e,
                    "The dependencies are cyclic. "@ + cycle_description(c),
                ),
        },
{
    // The dependencies must be valid.
    if let Err(e) = check_dependencies(&task_file) {
        return Err(e);
    }
    // The location must be absolute.
    if !unix_path_is_absolute(task_file.location.as_str()) {
        let mut m = "TaskFile has a relative ".to_owned();
        m.append(code_str("location").as_str());
        m.append(": ");
        m.append(code_str(task_file.location.as_str()).as_str());
        m.append(".");
        return Err(SealedDatabaseError::FailedToRunUserCommand(m, None));
    }
    // Each task must be valid.
    let mut i: usize = 0;
    while i < task_file.tasks.len()
        invariant
            dependency_problem(task_file) is None,
            dependencies_acyclic(task_file),
            unix_absolute(task_file.location@),
            i <= task_file.tasks@.len(),
            forall|j: int|
                0 <= j < i ==> task_problem(task_file.tasks@[j].0, #[trigger] task_file.tasks@[j].1)
                    is None,
        decreases task_file.tasks@.len() - i,
    {
        let name = task_file.tasks.key_at(i);
        let task = task_file.tasks.value_at(i);
        let checked = check_task(name.as_str(), task);
        if let Err(e) = checked {
            proof {
                assert(task_problem(name@, *task) is Some);
                assert(name@ == task_file.tasks@[i as int].0);
                assert(*task == task_file.tasks@[i as int].1);
                assert(is_first_bad_task(task_file, i as int));
                let c = choose|c: int| is_first_bad_task(task_file, c);
                if c < i {
                    assert(task_problem(task_file.tasks@[c].0, task_file.tasks@[c].1) is None);
                } else if c > i {
                    assert(task_problem(task_file.tasks@[i as int].0, task_file.tasks@[i as int].1)
                        is None);
                }
                assert(c == i);
                assert(task_file_problem(task_file) == task_problem(name@, *task));
            }
            return Err(e);
        }
        i = i + 1;
    }
    proof {
        assert forall|k: int| !is_first_bad_task(task_file, k) by {
            if 0 <= k < task_file.tasks@.len() {
                assert(task_problem(task_file.tasks@[k].0, task_file.tasks@[k].1) is None);
            }
        }
    }
    Ok(task_file)
}

/// For each task, the positions of its dependencies among the tasks.
fn dependency_indices(tf: &TaskFile) -> (adj: Vec<Vec<usize>>)
    requires
        dependencies_exist(*tf),
    ensures
        adj@.len() == tf.tasks@.len(),
        forall|i: int|
            0 <= i < adj@.len() ==> (#[trigger] adj@[i])@.len() == task_deps(*tf, i).len(),
        forall|i: int, k: int|
            0 <= i < adj@.len() && 0 <= k < adj@[i]@.len() ==> #[trigger] adj@[i]@[k]
                < tf.tasks@.len() && tf.tasks@[adj@[i]@[k] as int].0 == task_deps(*tf, i)[k],
{
    let tasks = &tf.tasks;
    let n = tasks.len();
    let mut adj: Vec<Vec<usize>> = Vec::new();
    let mut i: usize = 0;
    while i < n
        invariant
            n == tf.tasks@.len(),
            tasks == &tf.tasks,
            dependencies_exist(*tf),
            i <= n,
            adj@.len() == i,
            forall|j: int|
                0 <= j < i ==> (#[trigger] adj@[j])@.len() == task_deps(*tf, j).len(),
            forall|j: int, k: int|
                0 <= j < i && 0 <= k < adj@[j]@.len() ==> #[trigger] adj@[j]@[k] < n
                    && tf.tasks@[adj@[j]@[k] as int].0 == task_deps(*tf, j)[k],
        decreases n - i,
    {
        let deps = &tasks.value_at(i).dependencies;
        let mut row: Vec<usize> = Vec::new();
        let mut k: usize = 0;
        while k < deps.len()
            invariant
                n == tf.tasks@.len(),
                tasks == &tf.tasks,
                i < n,
                deps@ == tf.tasks@[i as int].1.dependencies@,
                dependencies_exist(*tf),
                k <= deps@.len(),
                row@.len() == k,
                forall|l: int|
                    0 <= l < k ==> #[trigger] row@[l] < n && tf.tasks@[row@[l] as int].0
                        == task_deps(*tf, i as int)[l],
            decreases deps.len() - k,
        {
            assert(task_deps(*tf, i as int)[k as int] == deps@[k as int]@);
            let pos = tasks.position(deps[k].as_str());
            let j = pos.unwrap();
            row.push(j);
            k = k + 1;
        }
        adj.push(row);
        i = i + 1;
    }
    adj
}

/// The names of the tasks at the positions in `c`.
pub open spec fn names_at(tf: TaskFile, c: Seq<usize>) -> Seq<Seq<char>> {
    c.map_values(|j: usize| tf.tasks@[j as int].0)
}

proof fn lemma_edge_iff_depends(tf: TaskFile, adj: Seq<Vec<usize>>, u: int, v: int)
    requires
        keys_distinct(tf.tasks@),
        adj.len() == tf.tasks@.len(),
        forall|i: int| 0 <= i < adj.len() ==> (#[trigger] adj[i])@.len() == task_deps(tf, i).len(),
        forall|i: int, k: int|
            0 <= i < adj.len() && 0 <= k < adj[i]@.len() ==> #[trigger] adj[i]@[k]
                < tf.tasks@.len() && tf.tasks@[adj[i]@[k] as int].0 == task_deps(tf, i)[k],
        0 <= u < adj.len(),
        0 <= v < adj.len(),
    ensures
        edge(graph_of(adj), u, v) <==> depends_on(tf, tf.tasks@[u].0, tf.tasks@[v].0),
{
    let g = graph_of(adj);
    if edge(g, u, v) {
        let k = choose|k: int| 0 <= k < g[u].len() && g[u][k] == v;
        assert(g[u] == adj[u]@);
        assert(task_deps(tf, u)[k] == tf.tasks@[v].0);
    }
    if depends_on(tf, tf.tasks@[u].0, tf.tasks@[v].0) {
        let (i, k) = choose|i: int, k: int|
            0 <= i < tf.tasks@.len() && tf.tasks@[i].0 == tf.tasks@[u].0 && 0 <= k < task_deps(
                tf,
                i,
            ).len() && #[trigger] task_deps(tf, i)[k] == tf.tasks@[v].0;
        assert(i == u);
        assert(g[u] == adj[u]@);
        let w = adj[u]@[k];
        assert(tf.tasks@[w as int].0 == tf.tasks@[v].0);
        assert(w as int == v);
        assert(g[u][k] == v);
    }
}

/// Checks that the default task exists, that every dependency names a task, and that the
/// dependencies form no cycle.
pub fn check_dependencies(task_file: &TaskFile) -> (r: Result<(), SealedDatabaseError>)
    ensures
        r is Ok <==> (dependency_problem(*task_file) is None && dependencies_acyclic(*task_file)),
        match dependency_problem(*task_file) {
            Some(m) => r matches Err(e) && user_error(e, m),
            None => r matches Err(e) ==> exists|c: Seq<Seq<char>>|
                is_dependency_cycle(*task_file, c) && user_error(
                    e,
                    "The dependencies are cyclic. "@ + cycle_description(c),
                ),
        },
{
    let tasks = &task_file.tasks;
    tasks.lemma_distinct();
    let ghost tf = *task_file;
    let valid_default = match &task_file.default {
        Some(d) => tasks.contains_key(d.as_str()),
        None => true,
    };
    // Collect the tasks with invalid dependencies.
    let mut items: Vec<String> = Vec::new();
    let mut i: usize = 0;
    while i < tasks.len()
        invariant
            tasks == &task_file.tasks,
            tf == *task_file,
            i <= tf.tasks@.len(),
            views(items@) == violation_items(tf, i as nat),
            (items@.len() == 0) <==> forall|j: int|
                0 <= j < i ==> missing_deps(#[trigger] task_deps(tf, j), tf).len() == 0,
        decreases tf.tasks@.len() - i,
    {
        let codes = missing_dependency_codes(&tasks.value_at(i).dependencies, task_file);
        let ghost before = items@;
        if codes.len() > 0 {
            let mut item = code_str(tasks.key_at(i).as_str());
            item.append(" (");
            item.append(series_of(&codes).as_str());
            item.append(")");
            items.push(item);
            proof {
                assert(views(items@) =~= views(before).push(violation_item(tf, i as int)));
            }
        }
        i = i + 1;
    }
    if items.len() > 0 {
        let series_text = series_of(&items);
        if valid_default {
            let mut m = "The following tasks have invalid dependencies: ".to_owned();
            m.append(series_text.as_str());
            m.append(".");
            return Err(SealedDatabaseError::FailedToRunUserCommand(m, None));
        }
        let d = task_file.default.as_ref().unwrap();
        let mut m = "The default task ".to_owned();
        m.append(code_str(d.as_str()).as_str());
        m.append(" does not exist, and the following tasks have invalid dependencies: ");
        m.append(series_text.as_str());
        m.append(".");
        return Err(SealedDatabaseError::FailedToRunUserCommand(m, None));
    } else if !valid_default {
        let d = task_file.default.as_ref().unwrap();
        let mut m = "The default task ".to_owned();
        m.append(code_str(d.as_str()).as_str());
        m.append(" does not exist.");
        return Err(SealedDatabaseError::FailedToRunUserCommand(m, None));
    }
    // Every dependency names a task; look for a cycle.
    proof {
        assert forall|j: int, k: int|
            0 <= j < tf.tasks@.len() && 0 <= k < task_deps(tf, j).len() implies tf.tasks.has_key(
            #[trigger] task_deps(tf, j)[k],
        ) by {
            assert(missing_deps(task_deps(tf, j), tf).len() == 0);
            lemma_missing_deps_empty(task_deps(tf, j), tf);
        }
    }
    let adj = dependency_indices(task_file);
    let ghost g = graph_of(adj@);
    proof {
        assert forall|u: int, k: int| 0 <= u < g.len() && 0 <= k < g[u].len() implies #[trigger] g[u][k]
            < g.len() by {
            assert(g[u] == adj@[u]@);
        }
    }
    match find_cycle(&adj) {
        None => {
            proof {
                assert forall|c: Seq<Seq<char>>| !is_dependency_cycle(tf, c) by {
                    if is_dependency_cycle(tf, c) {
                        assert(tf.tasks@.len() == adj@.len());
                        lemma_index_cycle(tf, adj@, c);
                    }
                }
            }
            Ok(())
        },
        Some(cyc) => {
            let mut names: Vec<String> = Vec::new();
            let mut j: usize = 0;
            while j < cyc.len()
                invariant
                    tasks == &task_file.tasks,
                    tf == *task_file,
                    g == graph_of(adj@),
                    g.len() == tf.tasks@.len(),
                    is_cycle(g, cyc@),
                    well_formed(g),
                    j <= cyc@.len(),
                    views(names@) == names_at(tf, cyc@.take(j as int)),
                decreases cyc.len() - j,
            {
                let ghost before = names@;
                assert(cyc@[j as int] < g.len()) by {
                    if j < cyc@.len() - 1 {
                        assert(edge(g, cyc@[j as int] as int, cyc@[j + 1] as int));
                    } else {
                        assert(cyc@.last() == cyc@[j as int]);
                    }
                }
                names.push(tasks.key_at(cyc[j]).clone());
                proof {
                    assert(cyc@.take(j + 1) =~= cyc@.take(j as int).push(cyc@[j as int]));
                    assert(views(names@) =~= views(before).push(tf.tasks@[cyc@[j as int] as int].0));
                    assert(names_at(tf, cyc@.take(j + 1)) =~= names_at(tf, cyc@.take(j as int)).push(
                        tf.tasks@[cyc@[j as int] as int].0,
                    ));
                }
                j = j + 1;
            }
            proof {
                assert(cyc@.take(cyc@.len() as int) =~= cyc@);
                lemma_name_cycle(tf, adj@, cyc@);
            }
            let description = describe_cycle(&names);
            let mut m = "The dependencies are cyclic. ".to_owned();
            m.append(description.as_str());
            Err(SealedDatabaseError::FailedToRunUserCommand(m, None))
        },
    }
}

/// `name` is the name of one of the tasks.
pub open spec fn is_task_name(tf: TaskFile, name: Seq<char>) -> bool {
    exists|p: int| 0 <= p < tf.tasks@.len() && #[trigger] tf.tasks@[p].0 == name
}

/// A cycle of task names gives a cycle of task positions.
proof fn lemma_index_cycle(tf: TaskFile, adj: Seq<Vec<usize>>, c: Seq<Seq<char>>)
    requires
        keys_distinct(tf.tasks@),
        adj.len() == tf.tasks@.len(),
        forall|i: int| 0 <= i < adj.len() ==> (#[trigger] adj[i])@.len() == task_deps(tf, i).len(),
        forall|i: int, k: int|
            0 <= i < adj.len() && 0 <= k < adj[i]@.len() ==> #[trigger] adj[i]@[k]
                < tf.tasks@.len() && tf.tasks@[adj[i]@[k] as int].0 == task_deps(tf, i)[k],
        is_dependency_cycle(tf, c),
        tf.tasks@.len() <= usize::MAX,
    ensures
        !acyclic(graph_of(adj)),
{
    let n = tf.tasks@.len();
    // Every name of the cycle is a task: it depends on something.
    assert forall|i: int| 0 <= i < c.len() implies #[trigger] is_task_name(tf, c[i]) by {
        if i < c.len() - 1 {
            assert(depends_on(tf, c[i], c[i + 1]));
        } else {
            assert(c.last() == c[i]);
            assert(depends_on(tf, c.last(), c[0]));
        }
    }
    let ic = Seq::new(
        c.len(),
        |i: int| (choose|p: int| 0 <= p < n && #[trigger] tf.tasks@[p].0 == c[i]) as usize,
    );
    assert forall|i: int| 0 <= i < c.len() implies 0 <= #[trigger] ic[i] < n && tf.tasks@[ic[i] as int].0
        == c[i] by {
        assert(is_task_name(tf, c[i]));
        let p = choose|p: int| 0 <= p < n && #[trigger] tf.tasks@[p].0 == c[i];
        assert(ic[i] as int == p);
    }
    assert forall|i: int| 0 <= i < ic.len() - 1 implies edge(
        graph_of(adj),
        #[trigger] ic[i] as int,
        ic[i + 1] as int,
    ) by {
        assert(depends_on(tf, c[i], c[i + 1]));
        lemma_edge_iff_depends(tf, adj, ic[i] as int, ic[i + 1] as int);
    }
    assert(ic.last() == ic[c.len() - 1]);
    assert(c.last() == c[c.len() - 1]);
    lemma_edge_iff_depends(tf, adj, ic.last() as int, ic[0] as int);
    assert(is_cycle(graph_of(adj), ic));
}

/// A cycle of task positions gives a cycle of task names.
proof fn lemma_name_cycle(tf: TaskFile, adj: Seq<Vec<usize>>, c: Seq<usize>)
    requires
        keys_distinct(tf.tasks@),
        adj.len() == tf.tasks@.len(),
        forall|i: int| 0 <= i < adj.len() ==> (#[trigger] adj[i])@.len() == task_deps(tf, i).len(),
        forall|i: int, k: int|
            0 <= i < adj.len() && 0 <= k < adj[i]@.len() ==> #[trigger] adj[i]@[k]
                < tf.tasks@.len() && tf.tasks@[adj[i]@[k] as int].0 == task_deps(tf, i)[k],
        is_cycle(graph_of(adj), c),
    ensures
        is_dependency_cycle(tf, names_at(tf, c)),
{
    let g = graph_of(adj);
    let names = names_at(tf, c);
    assert forall|i: int| 0 <= i < c.len() implies 0 <= #[trigger] c[i] < adj.len() by {
        if i < c.len() - 1 {
            assert(edge(g, c[i] as int, c[i + 1] as int));
        } else {
            assert(c.last() == c[i]);
        }
    }
    assert forall|i: int| 0 <= i < names.len() - 1 implies depends_on(
        tf,
        #[trigger] names[i],
        names[i + 1],
    ) by {
        assert(edge(g, c[i] as int, c[i + 1] as int));
        lemma_edge_iff_depends(tf, adj, c[i] as int, c[i + 1] as int);
    }
    assert(c.last() == c[c.len() - 1]);
    lemma_edge_iff_depends(tf, adj, c.last() as int, c[0] as int);
    assert(names.last() == tf.tasks@[c.last() as int].0);
}

/// The description of a cycle of task names.
fn describe_cycle(names: &Vec<String>) -> (r: String)
    requires
        names@.len() > 0,
    ensures
        r@ == cycle_description(views(names@)),
{
    let n = names.len();
    if n == 1 {
        let mut r = code_str(names[0].as_str());
        r.append(" depends on itself.");
        r
    } else if n == 2 {
        let mut r = code_str(names[0].as_str());
        r.append(" and ");
        r.append(code_str(names[1].as_str()).as_str());
        r.append(" depend on each other.");
        r
    } else {
        let ghost c = views(names@);
        let mut parts: Vec<String> = Vec::new();
        let mut i: usize = 0;
        while i < n
            invariant
                n == names@.len(),
                n >= 3,
                c == views(names@),
                i <= n,
                parts@.len() == i,
                forall|j: int|
                    0 <= j < i ==> (#[trigger] parts@[j])@ == code(c[j]) + " depends on "@ + code(
                        c[(j + 1) % (n as int)],
                    ),
            decreases n - i,
        {
            let next = if i + 1 == n {
                0
            } else {
                i + 1
            };
            assert(next as int == (i + 1) % (n as int)) by (nonlinear_arith)
                requires
                    next as int == (if i + 1 == n { 0 } else { i + 1 }),
                    i < n,
            ;
            let mut part = code_str(names[i].as_str());
            part.append(" depends on ");
            part.append(code_str(names[next].as_str()).as_str());
            parts.push(part);
            i = i + 1;
        }
        assert(views(parts@) =~= Seq::new(
            c.len(),
            |j: int| code(c[j]) + " depends on "@ + code(c[(j + 1) % (c.len() as int)]),
        ));
        let mut r = series_of(&parts);
        r.append(".");
        r
    }
}

} // verus!
