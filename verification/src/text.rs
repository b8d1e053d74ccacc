use vstd::prelude::*;
use vstd::string::*;

verus! {

/// The views of a sequence of strings.
pub open spec fn views(items: Seq<String>) -> Seq<Seq<char>> {
    items.map_values(|s: String| s@)
}

/// A code-like fragment (a task name, a path, a key) set off in backticks.
pub open spec fn code(s: Seq<char>) -> Seq<char> {
    "`"@ + s + "`"@
}

/// `items` joined with `sep` between consecutive items.
pub open spec fn join(items: Seq<Seq<char>>, sep: Seq<char>) -> Seq<char>
    decreases items.len(),
{
    if items.len() == 0 {
        Seq::empty()
    } else if items.len() == 1 {
        items[0]
    } else {
        join(items.drop_last(), sep) + sep + items.last()
    }
}

/// An English list: "a", "a and b", "a, b, and c".
pub open spec fn series(items: Seq<Seq<char>>) -> Seq<char> {
    if items.len() == 0 {
        Seq::empty()
    } else if items.len() == 1 {
        items[0]
    } else if items.len() == 2 {
        items[0] + " and "@ + items[1]
    } else {
        join(items.drop_last(), ", "@) + ", and "@ + items.last()
    }
}

/// Whether `c` occurs in `s`.
pub open spec fn has_char(s: Seq<char>, c: char) -> bool {
    exists|i: int| 0 <= i < s.len() && s[i] == c
}

/// A fresh string with the characters of `s`.
pub fn owned(s: &str) -> (r: String)
    ensures
        r@ == s@,
{
    s.to_owned()
}

/// `s` set off in backticks.
pub fn code_str(s: &str) -> (r: String)
    ensures
        r@ == code(s@),
{
    let mut r = String::new();
    r.append("`");
    r.append(s);
    r.append("`");
    r
}

/// Whether the character `c` occurs in `s`.
pub fn contains_char(s: &str, c: char) -> (b: bool)
    ensures
        b == has_char(s@, c),
{
    let n = s.unicode_len();
    let mut i: usize = 0;
    while i < n
        invariant
            n == s@.len(),
            i <= n,
            forall|j: int| 0 <= j < i ==> s@[j] != c,
        decreases n - i,
    {
        if s.get_char(i) == c {
            return true;
        }
        i = i + 1;
    }
    false
}

/// `items` joined with `sep` between consecutive items.
pub fn join_strings(items: &Vec<String>, sep: &str) -> (r: String)
    ensures
        r@ == join(views(items@), sep@),
{
    let mut r = String::new();
    let ghost all = views(items@);
    let mut i: usize = 0;
    while i < items.len()
        invariant
            i <= items@.len(),
            all == views(items@),
            r@ == join(all.take(i as int), sep@),
        decreases items.len() - i,
    {
        assert(all.take(i + 1).drop_last() =~= all.take(i as int));
        if i != 0 {
            r.append(sep);
        }
        r.append(items[i].as_str());
        i = i + 1;
    }
    assert(all.take(items@.len() as int) =~= all);
    r
}

/// An English list of `items`: "a", "a and b", "a, b, and c".
pub fn series_of(items: &Vec<String>) -> (r: String)
    ensures
        r@ == series(views(items@)),
{
    let ghost all = views(items@);
    let n = items.len();
    if n == 0 {
        String::new()
    } else if n == 1 {
        items[0].clone()
    } else if n == 2 {
        let mut r = items[0].clone();
        r.append(" and ");
        r.append(items[1].as_str());
        r
    } else {
        let mut init: Vec<String> = Vec::new();
        let mut i: usize = 0;
        while i < n - 1
            invariant
                n == items@.len(),
                n >= 3,
                i <= n - 1,
                init@.len() == i,
                forall|j: int| 0 <= j < i ==> #[trigger] init@[j]@ == items@[j]@,
            decreases n - 1 - i,
        {
            init.push(items[i].clone());
            i = i + 1;
        }
        assert(views(init@) =~= all.drop_last());
        let mut r = join_strings(&init, ", ");
        r.append(", and ");
        r.append(items[n - 1].as_str());
        r
    }
}

/// The decimal digit for `d < 10`.
pub open spec fn decimal_digit(d: nat) -> char {
    if d == 0 { '0' } else if d == 1 { '1' } else if d == 2 { '2' } else if d == 3 { '3' }
    else if d == 4 { '4' } else if d == 5 { '5' } else if d == 6 { '6' } else if d == 7 { '7' }
    else if d == 8 { '8' } else { '9' }
}

/// `n` written in decimal, without leading zeros.
pub open spec fn decimal_text(n: nat) -> Seq<char>
    decreases n,
{
    if n < 10 {
        seq![decimal_digit(n)]
    } else {
        decimal_text(n / 10) + seq![decimal_digit(n % 10)]
    }
}

fn digit_string(d: usize) -> (r: String)
    requires
        d < 10,
    ensures
        r@ == seq![decimal_digit(d as nat)],
{
    proof {
        reveal_strlit("0");
        reveal_strlit("1");
        reveal_strlit("2");
        reveal_strlit("3");
        reveal_strlit("4");
        reveal_strlit("5");
        reveal_strlit("6");
        reveal_strlit("7");
        reveal_strlit("8");
        reveal_strlit("9");
    }
    let s = if d == 0 { "0" } else if d == 1 { "1" } else if d == 2 { "2" } else if d == 3 { "3" }
    else if d == 4 { "4" } else if d == 5 { "5" } else if d == 6 { "6" } else if d == 7 { "7" }
    else if d == 8 { "8" } else { "9" };
    let r = s.to_owned();
    assert(r@ =~= seq![decimal_digit(d as nat)]);
    r
}

/// `n` written in decimal.
pub fn decimal(n: usize) -> (r: String)
    ensures
        r@ == decimal_text(n as nat),
    decreases n,
{
    if n < 10 {
        digit_string(n)
    } else {
        let mut r = decimal(n / 10);
        let d = digit_string(n % 10);
        r.append(d.as_str());
        r
    }
}

/// The position of the first `c` in `s`, if any.
pub open spec fn first_index(s: Seq<char>, c: char) -> Option<int> {
    if exists|k: int| 0 <= k < s.len() && s[k] == c {
        Some(choose|k: int| 0 <= k < s.len() && s[k] == c && forall|j: int| 0 <= j < k ==> s[j] != c)
    } else {
        None
    }
}

/// `s` split at its first `c`: what comes before and what comes after, if `c` occurs.
pub open spec fn split_first(s: Seq<char>, c: char) -> Option<(Seq<char>, Seq<char>)> {
    match first_index(s, c) {
        Some(k) => Some((s.take(k), s.skip(k + 1))),
        None => None,
    }
}

/// Splits `s` at its first `c`.
pub fn split_once(s: &str, c: char) -> (r: Option<(String, String)>)
    ensures
        match r {
            Some(p) => split_first(s@, c) == Some((p.0@, p.1@)),
            None => split_first(s@, c) is None,
        },
{
    let n = s.unicode_len();
    let mut k: usize = 0;
    while k < n
        invariant
            n == s@.len(),
            k <= n,
            forall|j: int| 0 <= j < k ==> s@[j] != c,
        decreases n - k,
    {
        if s.get_char(k) == c {
            let before = s.substring_char(0, k);
            let after = s.substring_char(k + 1, n);
            proof {
                let f = choose|f: int|
                    0 <= f < s@.len() && s@[f] == c && forall|j: int| 0 <= j < f ==> s@[j] != c;
                assert(0 <= f < s@.len() && s@[f] == c && forall|j: int| 0 <= j < f ==> s@[j] != c);
                if f < k {
                    assert(s@[f] != c);
                } else if f > k {
                    assert(s@[k as int] != c);
                }
                assert(before@ =~= s@.take(k as int));
                assert(after@ =~= s@.skip(k + 1));
            }
            return Some((before.to_owned(), after.to_owned()));
        }
        k = k + 1;
    }
    None
}

} // verus!
