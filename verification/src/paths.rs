use vstd::prelude::*;
use vstd::string::*;
use typed_path::UnixPath;

use crate::str_map::{str_eq, StrMap};
use crate::text::{join, owned, views};

verus! {

/// A Unix path is absolute exactly when it starts at the root, `/`.
pub open spec fn unix_absolute(p: Seq<char>) -> bool {
    p.len() > 0 && p[0] == '/'
}

/// Whether the Unix path `p` is absolute, as `typed_path::UnixPath::is_absolute` decides it.
/// Claimed: the answer is `true` exactly when the path starts with `/` (the parser reads a
/// leading separator as the root directory and nothing else as one).
#[verifier::external_body]
pub(crate) fn unix_path_is_absolute(p: &str) -> (b: bool)
    ensures
        b == unix_absolute(p@),
{
    UnixPath::new(p).is_absolute()
}

/// The pieces of `s` between its separators `/`, empty ones included.
pub open spec fn pieces(s: Seq<char>) -> Seq<Seq<char>>
    decreases s.len(),
{
    if s.len() == 0 {
        seq![Seq::<char>::empty()]
    } else {
        let p = pieces(s.drop_last());
        if s.last() == '/' {
            p.push(Seq::empty())
        } else {
            p.update(p.len() - 1, p.last().push(s.last()))
        }
    }
}

/// A piece that names a step of a path: not empty, and not `.`.
pub open spec fn named_piece(p: Seq<char>) -> bool {
    p.len() > 0 && p != "."@
}

/// The named pieces among `ps`, in order.
pub open spec fn named(ps: Seq<Seq<char>>) -> Seq<Seq<char>>
    decreases ps.len(),
{
    if ps.len() == 0 {
        Seq::empty()
    } else {
        let k = named(ps.drop_last());
        if named_piece(ps.last()) {
            k.push(ps.last())
        } else {
            k
        }
    }
}

/// The steps of the path `s`: its pieces between separators, without empty pieces and `.`.
pub open spec fn segments(s: Seq<char>) -> Seq<Seq<char>> {
    named(pieces(s))
}

/// A path as it is built up: whether it starts at the root, and its steps.
pub type PathSteps = (bool, Seq<Seq<char>>);

/// `state` extended by the path `t`: an absolute `t` replaces it, a relative one adds its steps.
pub open spec fn push_text(state: PathSteps, t: Seq<char>) -> PathSteps {
    if unix_absolute(t) {
        (true, segments(t))
    } else {
        (state.0, state.1 + segments(t))
    }
}

/// `state` without its last step, when it has one. Going up from a lone `~` (the home
/// directory, an absolute path) leaves the path at the root `/`.
pub open spec fn pop_step(state: PathSteps) -> PathSteps {
    if state.1.len() > 0 {
        if !state.0 && state.1.len() == 1 && state.1[0] == "~"@ {
            (true, Seq::empty())
        } else {
            (state.0, state.1.drop_last())
        }
    } else {
        state
    }
}

/// One step of the expansion: `..` goes up, `$NAME` is replaced by the value of the variable
/// when it is set, and any other step is kept.
pub open spec fn expand_step(state: PathSteps, seg: Seq<char>, env: StrMap<String>) -> PathSteps {
    if seg == ".."@ {
        pop_step(state)
    } else if seg.len() > 0 && seg[0] == '$' {
        match env.spec_get(seg.drop_first()) {
            Some(v) => push_text(state, v@),
            None => (state.0, state.1.push(seg)),
        }
    } else {
        (state.0, state.1.push(seg))
    }
}

/// The expansion of the steps `segs`, from `state`.
pub open spec fn expand_steps(state: PathSteps, segs: Seq<Seq<char>>, env: StrMap<String>) -> PathSteps
    decreases segs.len(),
{
    if segs.len() == 0 {
        state
    } else {
        expand_step(expand_steps(state, segs.drop_last(), env), segs.last(), env)
    }
}

/// A leading `~` step replaced by the home directory, when it is known.
pub open spec fn expand_home(state: PathSteps, home: Option<Seq<char>>) -> PathSteps {
    match home {
        Some(h) => if !state.0 && state.1.len() > 0 && state.1[0] == "~"@ {
            let base = push_text((false, Seq::empty()), h);
            (base.0, base.1 + state.1.drop_first())
        } else {
            state
        },
        None => state,
    }
}

/// The text of a built-up path: its steps between separators, after a `/` when it starts at
/// the root.
pub open spec fn path_text(state: PathSteps) -> Seq<char> {
    if state.0 {
        "/"@ + join(state.1, "/"@)
    } else {
        join(state.1, "/"@)
    }
}

/// The expansion of `path`: variables replaced, `..` applied, a leading `~` replaced by the
/// home directory.
pub open spec fn expanded(path: Seq<char>, env: StrMap<String>, home: Option<Seq<char>>) -> Seq<char> {
    path_text(expand_home(expand_steps((unix_absolute(path), Seq::empty()), segments(path), env), home))
}

/// The steps of the path `s`.
pub fn segments_of(s: &str) -> (r: Vec<String>)
    ensures
        views(r@) == segments(s@),
{
    let n = s.unicode_len();
    let mut r: Vec<String> = Vec::new();
    let mut cur = String::new();
    let mut i: usize = 0;
    assert(s@.take(0) =~= Seq::<char>::empty());
    while i < n
        invariant
            n == s@.len(),
            i <= n,
            pieces(s@.take(i as int)).len() > 0,
            cur@ == pieces(s@.take(i as int)).last(),
            views(r@) == named(pieces(s@.take(i as int)).drop_last()),
        decreases n - i,
    {
        let c = s.get_char(i);
        let ghost before = pieces(s@.take(i as int));
        assert(s@.take(i + 1).drop_last() =~= s@.take(i as int));
        if c == '/' {
            let keep = cur.unicode_len() > 0 && !(cur.unicode_len() == 1 && cur.get_char(0) == '.');
            proof {
                reveal_strlit(".");
                if cur@.len() == 1 && cur@[0] == '.' {
                    assert(cur@ =~= "."@);
                }
                if cur@ == "."@ {
                    assert(cur@.len() == 1 && cur@[0] == '.');
                }
                assert(pieces(s@.take(i + 1)).drop_last() =~= before);
            }
            if keep {
                let ghost rv = views(r@);
                r.push(cur);
                assert(views(r@) =~= rv.push(before.last()));
            }
            assert(before =~= before.drop_last().push(before.last()));
            cur = String::new();
        } else {
            proof {
                assert(pieces(s@.take(i + 1)).drop_last() =~= before.drop_last());
            }
            cur.append(s.substring_char(i, i + 1));
            assert(cur@ =~= before.last().push(c));
        }
        i = i + 1;
    }
    let ghost all = pieces(s@.take(n as int));
    assert(s@.take(n as int) =~= s@);
    let keep = cur.unicode_len() > 0 && !(cur.unicode_len() == 1 && cur.get_char(0) == '.');
    proof {
        reveal_strlit(".");
        if cur@.len() == 1 && cur@[0] == '.' {
            assert(cur@ =~= "."@);
        }
        if cur@ == "."@ {
            assert(cur@.len() == 1 && cur@[0] == '.');
        }
        assert(all =~= all.drop_last().push(all.last()));
    }
    if keep {
        let ghost rv = views(r@);
        r.push(cur);
        assert(views(r@) =~= rv.push(all.last()));
    }
    r
}

/// Extends the built-up path by the path `t`.
fn push_path(absolute: &mut bool, steps: &mut Vec<String>, t: &str)
    ensures
        (*final(absolute), views(final(steps)@)) == push_text((*old(absolute), views(old(steps)@)), t@),
{
    let segs = segments_of(t);
    let abs = unix_path_is_absolute(t);
    if abs {
        *absolute = true;
        *steps = segs;
    } else {
        let ghost start = views(steps@);
        let mut i: usize = 0;
        while i < segs.len()
            invariant
                i <= segs@.len(),
                views(steps@) == start + views(segs@).take(i as int),
            decreases segs.len() - i,
        {
            let ghost before = views(steps@);
            steps.push(segs[i].clone());
            assert(views(steps@) =~= before.push(segs@[i as int]@));
            assert(views(segs@).take(i + 1) =~= views(segs@).take(i as int).push(segs@[i as int]@));
            assert(views(steps@) =~= start + views(segs@).take(i + 1));
            i = i + 1;
        }
        assert(views(segs@).take(segs@.len() as int) =~= views(segs@));
    }
}

/// The text of a built-up path.
fn render_path(absolute: bool, steps: &Vec<String>) -> (r: String)
    ensures
        r@ == path_text((absolute, views(steps@))),
{
    let body = crate::text::join_strings(steps, "/");
    if absolute {
        let mut r = owned("/");
        r.append(body.as_str());
        r
    } else {
        body
    }
}

/// Expands `path` without looking at the disk: each `$NAME` step is replaced by the value of
/// the variable in `env` when it is set, `..` removes the step before it (above a lone leading
/// `~` it leaves the root `/`), `.` and empty steps
/// are dropped, and a leading `~` step is replaced by `home` when it is known. The result
/// spells the path with single separators.
pub fn expand_path_text(path: &str, env: &StrMap<String>, home: Option<String>) -> (r: String)
    ensures
        r@ == expanded(path@, *env, match home { Some(h) => Some(h@), None => None }),
{
    let segs = segments_of(path);
    let mut absolute = unix_path_is_absolute(path);
    let mut steps: Vec<String> = Vec::new();
    let ghost all = views(segs@);
    let mut i: usize = 0;
    assert(all.take(0) =~= Seq::<Seq<char>>::empty());
    while i < segs.len()
        invariant
            i <= segs@.len(),
            all == views(segs@),
            (absolute, views(steps@)) == expand_steps((unix_absolute(path@), Seq::empty()), all.take(i as int), *env),
        decreases segs.len() - i,
    {
        assert(all.take(i + 1).drop_last() =~= all.take(i as int));
        let seg = &segs[i];
        let n = seg.unicode_len();
        if str_eq(seg.as_str(), "..") {
            if steps.len() > 0 {
                let ghost before = views(steps@);
                if !absolute && steps.len() == 1 && str_eq(steps[0].as_str(), "~") {
                    absolute = true;
                }
                steps.pop();
                assert(views(steps@) =~= before.drop_last());
            }
        } else if n > 0 && seg.get_char(0) == '$' {
            let name = seg.as_str().substring_char(1, n);
            assert(name@ =~= seg@.drop_first());
            match env.get(name) {
                Some(v) => push_path(&mut absolute, &mut steps, v.as_str()),
                None => {
                    let ghost before = views(steps@);
                    steps.push(seg.clone());
                    assert(views(steps@) =~= before.push(seg@));
                },
            }
        } else {
            let ghost before = views(steps@);
            steps.push(seg.clone());
            assert(views(steps@) =~= before.push(seg@));
        }
        i = i + 1;
    }
    assert(all.take(segs@.len() as int) =~= all);
    match home {
        Some(h) => {
            if !absolute && steps.len() > 0 && str_eq(steps[0].as_str(), "~") {
                let mut base_abs = false;
                let mut base: Vec<String> = Vec::new();
                assert(views(base@) =~= Seq::<Seq<char>>::empty());
                push_path(&mut base_abs, &mut base, h.as_str());
                let ghost start = views(base@);
                let mut j: usize = 1;
                while j < steps.len()
                    invariant
                        1 <= j <= steps@.len(),
                        views(base@) == start + views(steps@).subrange(1, j as int),
                    decreases steps.len() - j,
                {
                    let ghost before = views(base@);
                    base.push(steps[j].clone());
                    assert(views(base@) =~= before.push(steps@[j as int]@));
                    assert(views(steps@).subrange(1, j + 1) =~= views(steps@).subrange(1, j as int).push(steps@[j as int]@));
                    assert(views(base@) =~= start + views(steps@).subrange(1, j + 1));
                    j = j + 1;
                }
                assert(views(steps@).subrange(1, steps@.len() as int) =~= views(steps@).drop_first());
                render_path(base_abs, &base)
            } else {
                render_path(absolute, &steps)
            }
        },
        None => render_path(absolute, &steps),
    }
}

} // verus!
