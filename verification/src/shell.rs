use vstd::prelude::*;
use vstd::string::*;

use crate::text::{join, views};

verus! {

/// Characters that a Unix shell takes literally.
pub open spec fn shell_safe_char(c: char) -> bool {
    let u = c as u32;
    (97 <= u <= 122) || (65 <= u <= 90) || (48 <= u <= 57) || c == '-' || c == '_' || c == '='
        || c == '/' || c == ',' || c == '.' || c == '+'
}

/// The characters of `s` inside single quotes, with each `'` and `!` written as `'\'` or
/// `'\!` followed by `'`.
pub open spec fn quoted_body(s: Seq<char>) -> Seq<char>
    decreases s.len(),
{
    if s.len() == 0 {
        Seq::empty()
    } else {
        let c = s.last();
        quoted_body(s.drop_last()) + if c == '\'' || c == '!' {
            seq!['\'', '\\', c, '\'']
        } else {
            seq![c]
        }
    }
}

/// `s` made safe for a Unix shell: unchanged when it is nonempty and every character is taken
/// literally, otherwise quoted.
pub open spec fn shell_escaped(s: Seq<char>) -> Seq<char> {
    if s.len() > 0 && forall|i: int| 0 <= i < s.len() ==> shell_safe_char(#[trigger] s[i]) {
        s
    } else {
        seq!['\''] + quoted_body(s) + seq!['\'']
    }
}

/// `shell_escape::unix::escape`, the escaping that `shell_escape::escape` uses on Unix.
/// Claimed, as its source shows: a nonempty string of the characters `a-z A-Z 0-9 - _ = / , . +`
/// comes back unchanged; any other string comes back in single quotes, with `'` and `!`
/// each written as `'\'` and `'\!` followed by `'`.
#[verifier::external_body]
pub(crate) fn shell_escape(s: &str) -> (r: String)
    ensures
        r@ == shell_escaped(s@),
{
    shell_escape::unix::escape(std::borrow::Cow::Borrowed(s)).into_owned()
}

/// Each string escaped for the shell.
pub open spec fn escaped_all(parts: Seq<Seq<char>>) -> Seq<Seq<char>> {
    parts.map_values(|p: Seq<char>| shell_escaped(p))
}

/// A command line: each part escaped for the shell, joined with spaces.
pub open spec fn command_line(parts: Seq<Seq<char>>) -> Seq<char> {
    join(escaped_all(parts), " "@)
}

/// The parts escaped for the shell and joined with spaces.
pub fn to_command_line(parts: &Vec<String>) -> (r: String)
    ensures
        r@ == command_line(views(parts@)),
{
    let mut escaped: Vec<String> = Vec::new();
    let mut i: usize = 0;
    while i < parts.len()
        invariant
            i <= parts@.len(),
            escaped@.len() == i,
            forall|j: int| 0 <= j < i ==> (#[trigger] escaped@[j])@ == shell_escaped(parts@[j]@),
        decreases parts.len() - i,
    {
        escaped.push(shell_escape(parts[i].as_str()));
        i = i + 1;
    }
    assert(views(escaped@) =~= escaped_all(views(parts@)));
    crate::text::join_strings(&escaped, " ")
}

} // verus!
