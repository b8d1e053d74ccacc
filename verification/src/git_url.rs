use vstd::prelude::*;

verus! {

/// A character that a repository URL may hold here: printable ASCII other than `%`, `\`, `?`
/// and `#`. (With these, URL parsing neither decodes, drops nor reinterprets any character.)
pub open spec fn url_char(c: char) -> bool {
    '!' <= c <= '~' && c != '%' && c != '\\' && c != '?' && c != '#'
}

/// A separator of the pieces of a repository URL: `/` or `:`.
pub open spec fn url_sep(c: char) -> bool {
    c == '/' || c == ':'
}

/// The length of `s` without its trailing `/` characters.
pub open spec fn trimmed_len(s: Seq<char>) -> nat
    decreases s.len(),
{
    if s.len() > 0 && s.last() == '/' {
        trimmed_len(s.drop_last())
    } else {
        s.len()
    }
}

/// The position of the last separator of `s`, or -1.
pub open spec fn last_sep(s: Seq<char>) -> int
    decreases s.len(),
{
    if s.len() == 0 {
        -1
    } else if url_sep(s.last()) {
        s.len() - 1
    } else {
        last_sep(s.drop_last())
    }
}

/// The number of `/` in `s`.
pub open spec fn slashes(s: Seq<char>) -> nat
    decreases s.len(),
{
    if s.len() == 0 {
        0
    } else {
        slashes(s.drop_last()) + if s.last() == '/' {
            1nat
        } else {
            0nat
        }
    }
}

/// The last piece of `s` is a nonempty run of dots.
pub open spec fn ends_in_dots(s: Seq<char>) -> bool
    decreases s.len(),
{
    if s.len() == 0 || s.last() != '.' {
        false
    } else {
        let p = s.drop_last();
        p.len() == 0 || url_sep(p.last()) || ends_in_dots(p)
    }
}

/// Some piece of `s` before its last separator is a nonempty run of dots.
pub open spec fn closed_dot_piece(s: Seq<char>) -> bool
    decreases s.len(),
{
    if s.len() == 0 {
        false
    } else if url_sep(s.last()) {
        closed_dot_piece(s.drop_last()) || ends_in_dots(s.drop_last())
    } else {
        closed_dot_piece(s.drop_last())
    }
}

/// `s` ends with `azure.com`, its letters in any case.
pub open spec fn ends_with_azure_com(s: Seq<char>) -> bool {
    let n = s.len();
    &&& n >= 9
    &&& (s[n - 9] == 'a' || s[n - 9] == 'A') && (s[n - 8] == 'z' || s[n - 8] == 'Z')
    &&& (s[n - 7] == 'u' || s[n - 7] == 'U') && (s[n - 6] == 'r' || s[n - 6] == 'R')
    &&& (s[n - 5] == 'e' || s[n - 5] == 'E') && s[n - 4] == '.'
    &&& (s[n - 3] == 'c' || s[n - 3] == 'C') && (s[n - 2] == 'o' || s[n - 2] == 'O')
    &&& (s[n - 1] == 'm' || s[n - 1] == 'M')
}

/// The number of `/` after the last `azure.com` (in any case) of `s`, if it has one.
pub open spec fn slashes_after_azure_com(s: Seq<char>) -> Option<nat>
    decreases s.len(),
{
    if s.len() == 0 {
        None
    } else if ends_with_azure_com(s) {
        Some(0)
    } else {
        match slashes_after_azure_com(s.drop_last()) {
            Some(k) => Some(
                k + if s.last() == '/' {
                    1nat
                } else {
                    0nat
                },
            ),
            None => None,
        }
    }
}

/// `?` or `#`, which begin the query or the fragment of a URL.
pub open spec fn query_char(c: char) -> bool {
    c == '?' || c == '#'
}

/// The first `?` or `#` of `u` is at `q`.
pub open spec fn query_at(u: Seq<char>, q: int) -> bool {
    &&& 0 <= q < u.len()
    &&& query_char(u[q])
    &&& forall|j: int| 0 <= j < q ==> !query_char(#[trigger] u[j])
}

/// The position of the first `?` or `#` of `u`, or its length.
pub open spec fn query_pos(u: Seq<char>) -> int {
    if exists|q: int| query_at(u, q) {
        choose|q: int| query_at(u, q)
    } else {
        u.len() as int
    }
}

/// The part of `u` that holds the scheme, the host and the path: what comes before the first
/// `?` or `#`, or else the whole of `u` without its trailing `/`s (which the parse trims off
/// first; with a query or fragment, the trimmed `/`s are theirs).
pub open spec fn main_part(u: Seq<char>) -> Seq<char> {
    if query_pos(u) < u.len() {
        u.take(query_pos(u))
    } else {
        u.take(trimmed_len(u) as int)
    }
}

/// A repository URL that git-url-parse reads without panicking, as far as can be told from
/// its text. `t` is its `main_part`.
/// - The characters before its first `?` or `#` are `url_char`s, and after it there is no
///   `:` (so the pieces that an ssh URL written as `host:path` is split into at its `:`s are
///   those of `t`).
/// - The last piece of `t` (after its last `/` or `:`) holds something other than dots, and
///   `t` has a `/` or that piece has two characters or more: so the path of an ssh URL keeps a
///   character after its first.
/// - The Azure DevOps hosts (`dev.azure.com`, `ssh.dev.azure.com`) have their path indexed at
///   the organization, project and repository. A host is one of them only if `azure.com`
///   occurs in the text, and the host comes before its path; so when `azure.com` occurs, `t`
///   has no piece made of dots only (no path segment is removed) and at least three `/` after
///   its last `azure.com`, which puts at least three path segments after the host however the
///   slashes between scheme and host are read.
pub open spec fn supported_git_url(u: Seq<char>) -> bool {
    let t = main_part(u);
    let p = t.skip(last_sep(t) + 1);
    &&& forall|i: int| 0 <= i < query_pos(u) ==> url_char(#[trigger] u[i])
    &&& forall|i: int| query_pos(u) <= i < u.len() ==> #[trigger] u[i] != ':'
    &&& exists|i: int| 0 <= i < p.len() && p[i] != '.'
    &&& (slashes(t) > 0 || p.len() >= 2)
    &&& match slashes_after_azure_com(t) {
        Some(k) => !closed_dot_piece(t) && !ends_in_dots(t) && k >= 3,
        None => true,
    }
}

/// Whether the nine characters of `url` that end at position `k` are `azure.com`, in any case.
fn azure_com_ends_at(url: &str, k: usize) -> (b: bool)
    requires
        k < url@.len(),
    ensures
        b == ends_with_azure_com(url@.take(k + 1)),
{
    let ghost now = url@.take(k + 1);
    if k < 8 {
        return false;
    }
    let s = k - 8;
    let c0 = url.get_char(s);
    let c1 = url.get_char(s + 1);
    let c2 = url.get_char(s + 2);
    let c3 = url.get_char(s + 3);
    let c4 = url.get_char(s + 4);
    let c5 = url.get_char(s + 5);
    let c6 = url.get_char(s + 6);
    let c7 = url.get_char(s + 7);
    let c8 = url.get_char(s + 8);
    proof {
        assert(now.len() == k + 1);
        assert(now[now.len() - 9] == c0);
        assert(now[now.len() - 8] == c1);
        assert(now[now.len() - 7] == c2);
        assert(now[now.len() - 6] == c3);
        assert(now[now.len() - 5] == c4);
        assert(now[now.len() - 4] == c5);
        assert(now[now.len() - 3] == c6);
        assert(now[now.len() - 2] == c7);
        assert(now[now.len() - 1] == c8);
    }
    (c0 == 'a' || c0 == 'A') && (c1 == 'z' || c1 == 'Z') && (c2 == 'u' || c2 == 'U') && (c3
        == 'r' || c3 == 'R') && (c4 == 'e' || c4 == 'E') && c5 == '.' && (c6 == 'c' || c6
        == 'C') && (c7 == 'o' || c7 == 'O') && (c8 == 'm' || c8 == 'M')
}

proof fn lemma_trimmed_prefix(s: Seq<char>, k: int)
    requires
        0 <= k <= s.len(),
        forall|i: int| k <= i < s.len() ==> s[i] == '/',
        k == 0 || s[k - 1] != '/',
    ensures
        trimmed_len(s) == k,
    decreases s.len(),
{
    if s.len() > k {
        lemma_trimmed_prefix(s.drop_last(), k);
    }
}

/// Whether git-url-parse can be given `url`: `supported_git_url`.
pub fn is_supported_git_url(url: &str) -> (b: bool)
    ensures
        b == supported_git_url(url@),
{
    let n = url.unicode_len();
    let ghost u = url@;
    // The first `?` or `#`.
    let mut qp: usize = 0;
    while qp < n && !(url.get_char(qp) == '?' || url.get_char(qp) == '#')
        invariant
            n == u.len(),
            u == url@,
            qp <= n,
            forall|j: int| 0 <= j < qp ==> !query_char(#[trigger] u[j]),
        decreases n - qp,
    {
        qp = qp + 1;
    }
    proof {
        if qp < n {
            assert(query_at(u, qp as int));
            let c = choose|c: int| query_at(u, c);
            if c < qp {
                assert(!query_char(u[c]));
            } else if c > qp {
                assert(!query_char(u[qp as int]));
            }
        } else {
            assert forall|c: int| !query_at(u, c) by {
                if 0 <= c < u.len() {
                    assert(!query_char(u[c]));
                }
            }
        }
        assert(query_pos(u) == qp);
    }
    // The characters before it, and the `:`s after it.
    let mut chars_ok = true;
    let mut i: usize = 0;
    while i < qp
        invariant
            n == u.len(),
            u == url@,
            qp <= n,
            i <= qp,
            chars_ok == forall|j: int| 0 <= j < i ==> url_char(#[trigger] u[j]),
        decreases qp - i,
    {
        let c = url.get_char(i);
        let ok = '!' <= c && c <= '~' && c != '%' && c != '\\' && c != '?' && c != '#';
        chars_ok = chars_ok && ok;
        i = i + 1;
    }
    let mut rest_ok = true;
    let mut r: usize = qp;
    while r < n
        invariant
            n == u.len(),
            u == url@,
            qp <= r <= n,
            rest_ok == forall|j: int| qp <= j < r ==> #[trigger] u[j] != ':',
        decreases n - r,
    {
        rest_ok = rest_ok && url.get_char(r) != ':';
        r = r + 1;
    }
    // The main part: before the `?` or `#`, or else without the trailing `/`s.
    let mut m: usize = qp;
    if qp == n {
        while m > 0 && url.get_char(m - 1) == '/'
            invariant
                n == u.len(),
                u == url@,
                m <= n,
                forall|j: int| m <= j < n ==> u[j] == '/',
            decreases m,
        {
            m = m - 1;
        }
        proof {
            lemma_trimmed_prefix(u, m as int);
        }
    }
    assert(main_part(u) == u.take(m as int));
    let ghost t = u.take(m as int);
    // Separators, slashes and pieces of dots.
    let mut sep: Option<usize> = None;
    let mut slash_count: usize = 0;
    let mut closed_dots = false;
    let mut open_dots = false;
    let mut after: Option<usize> = None;
    let mut k: usize = 0;
    while k < m
        invariant
            n == u.len(),
            u == url@,
            m <= n,
            t == u.take(m as int),
            k <= m,
            match sep {
                Some(x) => x < k && last_sep(t.take(k as int)) == x,
                None => last_sep(t.take(k as int)) == -1,
            },
            slash_count == slashes(t.take(k as int)),
            slash_count <= k,
            closed_dots == closed_dot_piece(t.take(k as int)),
            open_dots == ends_in_dots(t.take(k as int)),
            match after {
                Some(a) => a <= k && slashes_after_azure_com(t.take(k as int)) == Some(a as nat),
                None => slashes_after_azure_com(t.take(k as int)) is None,
            },
        decreases m - k,
    {
        let c = url.get_char(k);
        let ghost pre = t.take(k as int);
        let ghost now = t.take(k + 1);
        assert(now.drop_last() =~= pre);
        assert(now.last() == c);
        let is_sep = c == '/' || c == ':';
        let prev_sep = k == 0 || {
            let d = url.get_char(k - 1);
            d == '/' || d == ':'
        };
        proof {
            if k > 0 {
                assert(pre.last() == u[k - 1]);
            }
        }
        if is_sep {
            closed_dots = closed_dots || open_dots;
            open_dots = false;
            sep = Some(k);
        } else if c == '.' {
            open_dots = prev_sep || open_dots;
        } else {
            open_dots = false;
        }
        let az = azure_com_ends_at(url, k);
        assert(now =~= u.take(k + 1));
        after = if az {
            Some(0)
        } else {
            match after {
                Some(a) => if c == '/' {
                    Some(a + 1)
                } else {
                    Some(a)
                },
                None => None,
            }
        };
        if c == '/' {
            slash_count = slash_count + 1;
        }
        k = k + 1;
    }
    assert(t.take(m as int) =~= t);
    // The last piece holds something other than dots.
    let start: usize = match sep {
        Some(x) => x + 1,
        None => 0,
    };
    let ghost p = t.skip(start as int);
    let mut non_dot = false;
    let mut q: usize = start;
    while q < m
        invariant
            n == u.len(),
            u == url@,
            m <= n,
            t == u.take(m as int),
            start <= q <= m,
            p == t.skip(start as int),
            non_dot == exists|j: int| 0 <= j < q - start && p[j] != '.',
        decreases m - q,
    {
        let c = url.get_char(q);
        proof {
            assert(p[q - start] == c);
            if non_dot {
                let j0 = choose|j: int| 0 <= j < q - start && p[j] != '.';
                assert(0 <= j0 < q + 1 - start && p[j0] != '.');
            }
            if !non_dot && c != '.' {
                assert(p[q - start] != '.');
            }
        }
        non_dot = non_dot || c != '.';
        q = q + 1;
    }
    let piece_len = m - start;
    proof {
        assert(last_sep(t) + 1 == start);
        assert(p.len() == piece_len);
        assert(q == m);
    }
    let azure_ok = match after {
        Some(a) => !closed_dots && !open_dots && a >= 3,
        None => true,
    };
    chars_ok && rest_ok && non_dot && (slash_count > 0 || piece_len >= 2) && azure_ok
}

/// The name that git-url-parse gives the repository at `url`, or its error message.
pub uninterp spec fn git_repo_name(url: Seq<char>) -> Result<Seq<char>, Seq<char>>;

/// Calls `git_url_parse::GitUrl::parse` on `url` and keeps the `name` of the result, or the
/// message of the error; the result is named `git_repo_name`. `GitUrl::parse` indexes the
/// pieces of the URL's path without a check: the first piece of an ssh URL's path without its
/// leading `/`, and the second to fourth pieces for the two Azure DevOps hosts. The `requires`
/// keeps to URLs for which those pieces exist (`supported_git_url`).
#[verifier::external_body]
pub(crate) fn parse_repo_name(url: &str) -> (r: Result<String, String>)
    requires
        supported_git_url(url@),
    ensures
        match r {
            Ok(n) => git_repo_name(url@) == Ok::<Seq<char>, Seq<char>>(n@),
            Err(e) => git_repo_name(url@) == Err::<Seq<char>, Seq<char>>(e@),
        },
{
    match git_url_parse::GitUrl::parse(url) {
        Ok(parsed) => Ok(parsed.name),
        Err(e) => Err(e.to_string()),
    }
}

} // verus!
