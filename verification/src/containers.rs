use vstd::prelude::*;
use vstd::string::*;

use crate::docker::each_args;
use crate::error::{services_error_from, SealedError, SealedServicesError};
use crate::str_map::StrMap;
use crate::task::MappingPath;
use crate::text::{owned, views};

verus! {

/// `p` appended to the host path `base`, as a path is extended on Unix: an absolute `p`
/// replaces `base`, and a separator is put between them where `base` does not end in one.
pub open spec fn host_join(base: Seq<char>, p: Seq<char>) -> Seq<char> {
    if p.len() > 0 && p[0] == '/' {
        p
    } else if base.len() == 0 || base.last() == '/' {
        base + p
    } else {
        base + "/"@ + p
    }
}

/// `p` appended to the container path `base`: an empty `p` leaves `base` as it is, an
/// absolute `p` replaces it, and a separator is put between them where `base` does not end
/// in one.
pub open spec fn unix_join(base: Seq<char>, p: Seq<char>) -> Seq<char> {
    if p.len() == 0 {
        base
    } else if p[0] == '/' {
        p
    } else if base.len() == 0 || base.last() == '/' {
        base + p
    } else {
        base + "/"@ + p
    }
}

/// Joins two paths of the host.
pub fn join_host_path(base: &str, p: &str) -> (r: String)
    ensures
        r@ == host_join(base@, p@),
{
    let absolute = p.unicode_len() > 0 && p.get_char(0) == '/';
    if absolute {
        return owned(p);
    }
    let n = base.unicode_len();
    let mut r = owned(base);
    if n > 0 && base.get_char(n - 1) != '/' {
        r.append("/");
    }
    r.append(p);
    r
}

/// Calls `typed_path::Utf8UnixPath::join`, whose source pushes `p` onto a copy of `base`:
/// nothing when `p` is empty, a replacement when `p` begins with `/`, and otherwise `p`
/// after a `/` that is added only where `base` is not empty and does not end in one.
#[verifier::external_body]
fn unix_path_join(base: &str, p: &str) -> (r: String)
    ensures
        r@ == unix_join(base@, p@),
{
    typed_path::Utf8UnixPath::new(base).join(p).into_string()
}

/// `--env NAME=value` for each variable, in the order of the map.
pub open spec fn env_args(entries: Seq<(Seq<char>, String)>) -> Seq<Seq<char>>
    decreases entries.len(),
{
    if entries.len() == 0 {
        Seq::empty()
    } else {
        let (k, v) = entries.last();
        env_args(entries.drop_last()) + seq!["--env"@, k + "="@ + v@]
    }
}

/// The bind mount option of one mapping.
pub open spec fn mount_option(
    source: Seq<char>,
    location: Seq<char>,
    m: MappingPath,
    readonly: bool,
) -> Seq<char> {
    "type=bind,source="@ + host_join(source, m.host_path@) + ",target="@ + unix_join(
        location,
        m.container_path@,
    ) + if readonly {
        ",readonly"@
    } else {
        Seq::empty()
    }
}

/// `--mount` with a bind mount for each mapping, in order.
pub open spec fn mount_args(
    source: Seq<char>,
    location: Seq<char>,
    mounts: Seq<MappingPath>,
    readonly: bool,
) -> Seq<Seq<char>>
    decreases mounts.len(),
{
    if mounts.len() == 0 {
        Seq::empty()
    } else {
        mount_args(source, location, mounts.drop_last(), readonly) + seq![
            "--mount"@,
            mount_option(source, location, mounts.last(), readonly),
        ]
    }
}

/// The options of `docker container create` and `docker container run`: an init process,
/// the root user (the command switches user itself), the environment, the working
/// directory, the bind mounts (host paths taken from `cwd`), the published ports and the
/// extra arguments.
pub open spec fn container_options(
    cwd: Seq<char>,
    source_dir: Seq<char>,
    environment: Seq<(Seq<char>, String)>,
    location: Seq<char>,
    mounts: Seq<MappingPath>,
    readonly: bool,
    ports: Seq<String>,
    extra: Seq<String>,
) -> Seq<Seq<char>> {
    seq!["--init"@, "--user"@, "root"@] + env_args(environment) + seq!["--workdir"@, location]
        + mount_args(host_join(cwd, source_dir), location, mounts, readonly) + each_args(
        "--publish"@,
        ports,
    ) + views(extra)
}

/// Appends `s`.
fn push_part(parts: &mut Vec<String>, s: &str)
    ensures
        views(final(parts)@) == views(old(parts)@).push(s@),
{
    parts.push(owned(s));
    assert(views(parts@) =~= views(old(parts)@).push(s@));
}

/// Appends every string of `items`.
fn push_all(parts: &mut Vec<String>, items: &Vec<String>)
    ensures
        views(final(parts)@) == views(old(parts)@) + views(items@),
{
    let ghost start = views(parts@);
    let mut i: usize = 0;
    while i < items.len()
        invariant
            i <= items@.len(),
            views(parts@) == start + views(items@.take(i as int)),
        decreases items.len() - i,
    {
        push_part(parts, items[i].as_str());
        assert(views(parts@) =~= start + views(items@.take(i + 1)));
        i = i + 1;
    }
    assert(items@.take(items@.len() as int) =~= items@);
}

/// Appends `--env NAME=value` for each variable.
fn push_env(parts: &mut Vec<String>, environment: &StrMap<String>)
    ensures
        views(final(parts)@) == views(old(parts)@) + env_args(environment@),
{
    let ghost start = views(parts@);
    let n = environment.len();
    let mut i: usize = 0;
    while i < n
        invariant
            n == environment@.len(),
            i <= n,
            views(parts@) == start + env_args(environment@.take(i as int)),
        decreases n - i,
    {
        assert(environment@.take(i + 1).drop_last() =~= environment@.take(i as int));
        let k = environment.key_at(i);
        let v = environment.value_at(i);
        push_part(parts, "--env");
        let mut e = k.clone();
        e.append("=");
        e.append(v.as_str());
        push_part(parts, e.as_str());
        assert(views(parts@) =~= start + env_args(environment@.take(i + 1)));
        i = i + 1;
    }
    assert(environment@.take(n as int) =~= environment@);
}

/// Appends `--mount` with a bind mount for each mapping.
fn push_mounts(
    parts: &mut Vec<String>,
    source: &str,
    location: &str,
    mounts: &Vec<MappingPath>,
    readonly: bool,
)
    ensures
        views(final(parts)@) == views(old(parts)@) + mount_args(source@, location@, mounts@, readonly),
{
    let ghost start = views(parts@);
    let mut i: usize = 0;
    while i < mounts.len()
        invariant
            i <= mounts@.len(),
            views(parts@) == start + mount_args(source@, location@, mounts@.take(i as int), readonly),
        decreases mounts.len() - i,
    {
        assert(mounts@.take(i + 1).drop_last() =~= mounts@.take(i as int));
        let m = &mounts[i];
        let mut option = owned("type=bind,source=");
        let host = join_host_path(source, m.host_path.as_str());
        option.append(host.as_str());
        option.append(",target=");
        let target = unix_path_join(location, m.container_path.as_str());
        option.append(target.as_str());
        if readonly {
            option.append(",readonly");
        }
        assert(option@ =~= mount_option(source@, location@, *m, readonly));
        push_part(parts, "--mount");
        push_part(parts, option.as_str());
        assert(views(parts@) =~= start + mount_args(
            source@,
            location@,
            mounts@.take(i + 1),
            readonly,
        ));
        i = i + 1;
    }
    assert(mounts@.take(mounts@.len() as int) =~= mounts@);
}

/// Appends `--publish port` for each port.
fn push_ports(parts: &mut Vec<String>, ports: &Vec<String>)
    ensures
        views(final(parts)@) == views(old(parts)@) + each_args("--publish"@, ports@),
{
    let ghost start = views(parts@);
    let mut i: usize = 0;
    while i < ports.len()
        invariant
            i <= ports@.len(),
            views(parts@) == start + each_args("--publish"@, ports@.take(i as int)),
        decreases ports.len() - i,
    {
        assert(ports@.take(i + 1).drop_last() =~= ports@.take(i as int));
        push_part(parts, "--publish");
        push_part(parts, ports[i].as_str());
        assert(views(parts@) =~= start + each_args("--publish"@, ports@.take(i + 1)));
        i = i + 1;
    }
    assert(ports@.take(ports@.len() as int) =~= ports@);
}

/// The options of `docker container create` and `docker container run`. `cwd` is the
/// current directory of the process, which makes the source directory absolute for the
/// bind mounts.
pub fn container_args(
    cwd: &str,
    source_dir: &str,
    environment: &StrMap<String>,
    location: &str,
    mount_paths: &Vec<MappingPath>,
    mount_readonly: bool,
    ports: &Vec<String>,
    extra_args: &Vec<String>,
) -> (r: Vec<String>)
    ensures
        views(r@) == container_options(
            cwd@,
            source_dir@,
            environment@,
            location@,
            mount_paths@,
            mount_readonly,
            ports@,
            extra_args@,
        ),
{
    let mut args: Vec<String> = Vec::new();
    push_part(&mut args, "--init");
    push_part(&mut args, "--user");
    push_part(&mut args, "root");
    assert(views(args@) =~= seq!["--init"@, "--user"@, "root"@]);
    push_env(&mut args, environment);
    let ghost with_env = views(args@);
    push_part(&mut args, "--workdir");
    push_part(&mut args, location);
    assert(views(args@) =~= with_env + seq!["--workdir"@, location@]);
    let source = join_host_path(cwd, source_dir);
    push_mounts(&mut args, source.as_str(), location, mount_paths, mount_readonly);
    push_ports(&mut args, ports);
    push_all(&mut args, extra_args);
    args
}

/// The arguments that create a container from `image` running `command` as `user`.
pub open spec fn create_container_parts(
    image: Seq<char>,
    options: Seq<Seq<char>>,
    user: Seq<char>,
    command: Seq<char>,
) -> Seq<Seq<char>> {
    seq!["container"@, "create"@] + options + seq![image, "/bin/su"@, "-c"@, command, user]
}

/// The arguments of `docker` that create a container from `image`, running `command` as
/// `user` with the given container options.
pub fn create_container_args(image: &str, options: &Vec<String>, user: &str, command: &str) -> (r:
    Vec<String>)
    ensures
        views(r@) == create_container_parts(image@, views(options@), user@, command@),
{
    let mut args: Vec<String> = Vec::new();
    push_part(&mut args, "container");
    push_part(&mut args, "create");
    assert(views(args@) =~= seq!["container"@, "create"@]);
    push_all(&mut args, options);
    let ghost head = views(args@);
    push_part(&mut args, image);
    push_part(&mut args, "/bin/su");
    push_part(&mut args, "-c");
    push_part(&mut args, command);
    push_part(&mut args, user);
    assert(views(args@) =~= head + seq![image@, "/bin/su"@, "-c"@, command@, user@]);
    args
}

/// The arguments that run an interactive shell in `image` as `user`.
pub open spec fn shell_parts(image: Seq<char>, options: Seq<Seq<char>>, user: Seq<char>) -> Seq<
    Seq<char>,
> {
    seq!["container"@, "run"@, "--rm"@, "--interactive"@, "--tty"@] + options + seq![
        image,
        "/bin/su"@,
        user,
    ]
}

/// The arguments of `docker` that run an interactive shell in a throwaway container of
/// `image` as `user`, with the given container options.
pub fn spawn_shell_args(image: &str, options: &Vec<String>, user: &str) -> (r: Vec<String>)
    ensures
        views(r@) == shell_parts(image@, views(options@), user@),
{
    let mut args: Vec<String> = Vec::new();
    push_part(&mut args, "container");
    push_part(&mut args, "run");
    push_part(&mut args, "--rm");
    push_part(&mut args, "--interactive");
    push_part(&mut args, "--tty");
    assert(views(args@) =~= seq!["container"@, "run"@, "--rm"@, "--interactive"@, "--tty"@]);
    push_all(&mut args, options);
    let ghost head = views(args@);
    push_part(&mut args, image);
    push_part(&mut args, "/bin/su");
    push_part(&mut args, user);
    assert(views(args@) =~= head + seq![image@, "/bin/su"@, user@]);
    args
}

/// A character that Unicode counts as white space.
pub open spec fn is_white_space(c: char) -> bool {
    let u = c as u32;
    (9 <= u <= 13) || u == 32 || u == 0x85 || u == 0xA0 || u == 0x1680 || (0x2000 <= u <= 0x200A)
        || u == 0x2028 || u == 0x2029 || u == 0x202F || u == 0x205F || u == 0x3000
}

/// `s` without its leading white space.
pub open spec fn trim_start(s: Seq<char>) -> Seq<char>
    decreases s.len(),
{
    if s.len() > 0 && is_white_space(s[0]) {
        trim_start(s.drop_first())
    } else {
        s
    }
}

/// `s` without its trailing white space.
pub open spec fn trim_end(s: Seq<char>) -> Seq<char>
    decreases s.len(),
{
    if s.len() > 0 && is_white_space(s.last()) {
        trim_end(s.drop_last())
    } else {
        s
    }
}

/// `s` without its leading and trailing white space.
pub open spec fn trimmed(s: Seq<char>) -> Seq<char> {
    trim_end(trim_start(s))
}

/// Whether `c` is white space.
fn white_space(c: char) -> (b: bool)
    ensures
        b == is_white_space(c),
{
    let u = c as u32;
    (9 <= u && u <= 13) || u == 32 || u == 0x85 || u == 0xA0 || u == 0x1680 || (0x2000 <= u && u
        <= 0x200A) || u == 0x2028 || u == 0x2029 || u == 0x202F || u == 0x205F || u == 0x3000
}

/// The identifier of a created container: what `docker container create` printed, without
/// its surrounding white space.
pub fn container_id(output: &str) -> (r: String)
    ensures
        r@ == trimmed(output@),
{
    let n = output.unicode_len();
    let mut start: usize = 0;
    assert(output@.skip(0) =~= output@);
    while start < n && white_space(output.get_char(start))
        invariant
            n == output@.len(),
            start <= n,
            trim_start(output@) == trim_start(output@.skip(start as int)),
        decreases n - start,
    {
        assert(output@.skip(start as int).drop_first() =~= output@.skip(start + 1));
        start = start + 1;
    }
    let ghost rest = output@.skip(start as int);
    assert(trim_start(output@) == rest);
    let mut end: usize = n;
    while end > start && white_space(output.get_char(end - 1))
        invariant
            n == output@.len(),
            start <= end <= n,
            rest == output@.skip(start as int),
            trim_end(rest) == trim_end(output@.subrange(start as int, end as int)),
        decreases end - start,
    {
        assert(output@.subrange(start as int, end as int).drop_last() =~= output@.subrange(
            start as int,
            end - 1,
        ));
        end = end - 1;
    }
    assert(rest =~= output@.subrange(start as int, n as int));
    owned(output.substring_char(start, end))
}

/// What the check that an image exists concludes from the inspection of the image: it
/// exists when the inspection succeeds, and does not when the command fails or cannot be
/// run; an interruption stays one, and any other error is passed on.
pub fn image_exists_outcome(inspection: Result<String, SealedError>) -> (r: Result<
    bool,
    SealedServicesError,
>)
    ensures
        match inspection {
            Ok(_) => r == Ok::<bool, SealedServicesError>(true),
            Err(SealedError::Interrupted) => r == Err::<bool, SealedServicesError>(
                SealedServicesError::Interrupted,
            ),
            Err(SealedError::System(_, _)) => r == Ok::<bool, SealedServicesError>(false),
            Err(SealedError::FailedToRunUserCommand(_, _)) => r == Ok::<bool, SealedServicesError>(
                false,
            ),
            Err(e) => r matches Err(f) && services_error_from(f, e),
        },
{
    match inspection {
        Ok(_) => Ok(true),
        Err(SealedError::Interrupted) => Err(SealedServicesError::Interrupted),
        Err(SealedError::System(_, _)) => Ok(false),
        Err(SealedError::FailedToRunUserCommand(_, _)) => Ok(false),
        Err(e) => Err(SealedServicesError::from_sealed(e)),
    }
}

/// The arguments of `docker` that inspect `image`, which succeed when it exists.
pub fn image_exists_args(image: &str) -> (r: Vec<String>)
    ensures
        views(r@) == seq!["image"@, "inspect"@, image@],
{
    let r = vec![owned("image"), owned("inspect"), owned(image)];
    assert(views(r@) =~= seq!["image"@, "inspect"@, image@]);
    r
}

/// The arguments of `docker` that push `image`.
pub fn push_image_args(image: &str) -> (r: Vec<String>)
    ensures
        views(r@) == seq!["image"@, "push"@, image@],
{
    let r = vec![owned("image"), owned("push"), owned(image)];
    assert(views(r@) =~= seq!["image"@, "push"@, image@]);
    r
}

/// The arguments of `docker` that pull `image`.
pub fn pull_image_args(image: &str) -> (r: Vec<String>)
    ensures
        views(r@) == seq!["image"@, "pull"@, image@],
{
    let r = vec![owned("image"), owned("pull"), owned(image)];
    assert(views(r@) =~= seq!["image"@, "pull"@, image@]);
    r
}

/// The arguments of `docker` that delete `image`, even when containers use it.
pub fn delete_image_args(image: &str) -> (r: Vec<String>)
    ensures
        views(r@) == seq!["image"@, "rm"@, "--force"@, image@],
{
    let r = vec![owned("image"), owned("rm"), owned("--force"), owned(image)];
    assert(views(r@) =~= seq!["image"@, "rm"@, "--force"@, image@]);
    r
}

/// The arguments of `docker` that start `container` attached to the terminal.
pub fn start_container_args(container: &str) -> (r: Vec<String>)
    ensures
        views(r@) == seq!["container"@, "start"@, "--attach"@, container@],
{
    let r = vec![owned("container"), owned("start"), owned("--attach"), owned(container)];
    assert(views(r@) =~= seq!["container"@, "start"@, "--attach"@, container@]);
    r
}

/// The arguments of `docker` that stop `container`.
pub fn stop_container_args(container: &str) -> (r: Vec<String>)
    ensures
        views(r@) == seq!["container"@, "stop"@, container@],
{
    let r = vec![owned("container"), owned("stop"), owned(container)];
    assert(views(r@) =~= seq!["container"@, "stop"@, container@]);
    r
}

/// The arguments of `docker` that commit `container` to `image`.
pub fn commit_container_args(container: &str, image: &str) -> (r: Vec<String>)
    ensures
        views(r@) == seq!["container"@, "commit"@, container@, image@],
{
    let r = vec![owned("container"), owned("commit"), owned(container), owned(image)];
    assert(views(r@) =~= seq!["container"@, "commit"@, container@, image@]);
    r
}

/// The arguments of `docker` that delete `container`, even when it runs.
pub fn delete_container_args(container: &str) -> (r: Vec<String>)
    ensures
        views(r@) == seq!["container"@, "rm"@, "--force"@, container@],
{
    let r = vec![owned("container"), owned("rm"), owned("--force"), owned(container)];
    assert(views(r@) =~= seq!["container"@, "rm"@, "--force"@, container@]);
    r
}

/// The arguments of `docker` that copy a tar archive read from standard input into the root
/// of `container`.
pub fn copy_into_container_args(container: &str) -> (r: Vec<String>)
    ensures
        views(r@) == seq!["container"@, "cp"@, "-"@, container@ + ":/"@],
{
    let mut target = owned(container);
    target.append(":/");
    let r = vec![owned("container"), owned("cp"), owned("-"), target];
    assert(views(r@) =~= seq!["container"@, "cp"@, "-"@, container@ + ":/"@]);
    r
}

/// Where one path copied out of a container comes from and goes to, and the arguments of
/// `docker` that copy it to an intermediate place on the host.
pub struct CopyPlan {
    pub source: String,
    pub destination: String,
    pub args: Vec<String>,
}

/// The plan for copying `path` out of `container`: it is read at `path` under `source_dir`
/// in the container, first copied to `intermediate` (a place that does not exist yet, so that
/// the copy does not nest), and ends up at `path` under `destination_dir` on the host.
pub fn copy_from_plan(
    container: &str,
    source_dir: &str,
    destination_dir: &str,
    path: &str,
    intermediate: &str,
) -> (plan: CopyPlan)
    ensures
        plan.source@ == unix_join(source_dir@, path@),
        plan.destination@ == host_join(destination_dir@, path@),
        views(plan.args@) == seq![
            "container"@,
            "cp"@,
            container@ + ":"@ + unix_join(source_dir@, path@),
            intermediate@,
        ],
{
    let source = unix_path_join(source_dir, path);
    let destination = join_host_path(destination_dir, path);
    let mut from = owned(container);
    from.append(":");
    from.append(source.as_str());
    let args = vec![owned("container"), owned("cp"), from, owned(intermediate)];
    assert(views(args@) =~= seq![
        "container"@,
        "cp"@,
        container@ + ":"@ + unix_join(source_dir@, path@),
        intermediate@,
    ]);
    CopyPlan { source, destination, args }
}

/// A system error about `path`: the message is `what`, the path and a full stop.
pub fn path_failure(what: &str, path: &str, cause: Option<String>) -> (r: SealedServicesError)
    ensures
        r matches SealedServicesError::System(m, c) && m@ == what@ + path@ + "."@ && c == cause,
{
    let mut m = owned(what);
    m.append(path);
    m.append(".");
    SealedServicesError::System(m, cause)
}

/// The system error of a file that could be neither moved nor copied to its destination.
pub fn move_or_copy_failure(source: &str, destination: &str, cause: Option<String>) -> (r:
    SealedServicesError)
    ensures
        r matches SealedServicesError::System(m, c) && m@ == "Unable to move or copy file "@
            + source@ + " to destination "@ + destination@ + "."@ && c == cause,
{
    let mut m = owned("Unable to move or copy file ");
    m.append(source);
    m.append(" to destination ");
    m.append(destination);
    m.append(".");
    SealedServicesError::System(m, cause)
}

} // verus!
