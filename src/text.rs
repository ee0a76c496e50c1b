use vstd::prelude::*;
use vstd::string::*;

verus! {

/// The view of an optional string slice.
pub open spec fn opt_view(o: Option<&str>) -> Option<Seq<char>> {
    match o {
        Some(x) => Some(x@),
        None => None,
    }
}

/// `i` is the position of the first `c` in `s`.
pub open spec fn is_first(s: Seq<char>, c: char, i: int) -> bool {
    &&& 0 <= i < s.len()
    &&& s[i] == c
    &&& forall|j: int| 0 <= j < i ==> s[j] != c
}

/// Splits `s` at the first `c`: the text before it and the text after it.
pub open spec fn split_at_first(s: Seq<char>, c: char) -> Option<(Seq<char>, Seq<char>)> {
    if exists|i: int| is_first(s, c, i) {
        let i = choose|i: int| is_first(s, c, i);
        Some((s.subrange(0, i), s.subrange(i + 1, s.len() as int)))
    } else {
        None
    }
}

/// The `n`-th token of `s` when split at every space.
pub open spec fn token(s: Seq<char>, n: nat) -> Option<Seq<char>>
    decreases n,
{
    match split_at_first(s, ' ') {
        None => if n == 0 {
            Some(s)
        } else {
            None
        },
        Some((a, b)) => if n == 0 {
            Some(a)
        } else {
            token(b, (n - 1) as nat)
        },
    }
}

/// The text after the `n`-th space of `s`, if `s` has that many.
pub open spec fn after_spaces(s: Seq<char>, n: nat) -> Option<Seq<char>>
    decreases n,
{
    if n == 0 {
        Some(s)
    } else {
        match split_at_first(s, ' ') {
            None => None,
            Some((a, b)) => after_spaces(b, (n - 1) as nat),
        }
    }
}

/// `c` equals the lower-case ASCII letter or other character `l`, ignoring ASCII case.
pub open spec fn char_ieq(c: char, l: char) -> bool {
    c == l || (97 <= (l as u32) <= 122 && (c as u32) + 32 == (l as u32))
}

/// `s` equals the lower-case word `lit`, ignoring ASCII case.
pub open spec fn ieq(s: Seq<char>, lit: Seq<char>) -> bool {
    &&& s.len() == lit.len()
    &&& forall|i: int| 0 <= i < s.len() ==> char_ieq(#[trigger] s[i], lit[i])
}

/// `s` without its leading quote characters.
pub open spec fn trim_quotes_front(s: Seq<char>) -> Seq<char>
    decreases s.len(),
{
    if s.len() > 0 && s[0] == '"' {
        trim_quotes_front(s.drop_first())
    } else {
        s
    }
}

/// `s` without its trailing quote characters.
pub open spec fn trim_quotes_back(s: Seq<char>) -> Seq<char>
    decreases s.len(),
{
    if s.len() > 0 && s.last() == '"' {
        trim_quotes_back(s.drop_last())
    } else {
        s
    }
}

/// `s` without quote characters at either end.
pub open spec fn unquote(s: Seq<char>) -> Seq<char> {
    trim_quotes_back(trim_quotes_front(s))
}

/// `s` without its trailing line terminator characters.
pub open spec fn strip_eol(s: Seq<char>) -> Seq<char>
    decreases s.len(),
{
    if s.len() > 0 && (s.last() == '\n' || s.last() == '\r') {
        strip_eol(s.drop_last())
    } else {
        s
    }
}

/// The decimal digit `d`.
pub open spec fn digit(d: nat) -> Seq<char> {
    if d == 0 {
        "0"@
    } else if d == 1 {
        "1"@
    } else if d == 2 {
        "2"@
    } else if d == 3 {
        "3"@
    } else if d == 4 {
        "4"@
    } else if d == 5 {
        "5"@
    } else if d == 6 {
        "6"@
    } else if d == 7 {
        "7"@
    } else if d == 8 {
        "8"@
    } else {
        "9"@
    }
}

/// Decimal text of `n`, without leading zeros.
pub open spec fn decimal(n: nat) -> Seq<char>
    decreases n,
{
    if n < 10 {
        digit(n)
    } else {
        decimal(n / 10) + digit(n % 10)
    }
}

/// Splits `s` at its first `c`.
pub fn split_first<'a>(s: &'a str, c: char) -> (r: Option<(&'a str, &'a str)>)
    ensures
        match r {
            Some(p) => split_at_first(s@, c) == Some((p.0@, p.1@)),
            None => split_at_first(s@, c) is None,
        },
{
    let n = s.unicode_len();
    let mut i: usize = 0;
    while i < n
        invariant
            n == s@.len(),
            i <= n,
            forall|j: int| 0 <= j < i ==> s@[j] != c,
        decreases n - i,
    {
        if s.get_char(i) == c {
            let a = s.substring_char(0, i);
            let b = s.substring_char(i + 1, n);
            proof {
                assert(is_first(s@, c, i as int));
                let k = choose|k: int| is_first(s@, c, k);
                if k < i {
                    assert(s@[k] != c);
                } else if k > i {
                    assert(s@[i as int] != c);
                }
            }
            return Some((a, b));
        }
        i += 1;
    }
    None
}

/// The `n`-th space-separated token of `s`.
pub fn token_at<'a>(s: &'a str, n: usize) -> (r: Option<&'a str>)
    ensures
        opt_view(r) == token(s@, n as nat),
{
    let mut rest = s;
    let mut k: usize = n;
    loop
        invariant
            token(rest@, k as nat) == token(s@, n as nat),
        decreases k,
    {
        match split_first(rest, ' ') {
            None => {
                if k == 0 {
                    return Some(rest);
                } else {
                    return None;
                }
            },
            Some((a, b)) => {
                if k == 0 {
                    return Some(a);
                }
                rest = b;
                k = k - 1;
            },
        }
    }
}

/// The text after the `n`-th space of `s`.
pub fn rest_after<'a>(s: &'a str, n: usize) -> (r: Option<&'a str>)
    ensures
        opt_view(r) == after_spaces(s@, n as nat),
{
    let mut rest = s;
    let mut k: usize = n;
    while k > 0
        invariant
            after_spaces(rest@, k as nat) == after_spaces(s@, n as nat),
        decreases k,
    {
        match split_first(rest, ' ') {
            None => {
                return None;
            },
            Some((_a, b)) => {
                rest = b;
                k = k - 1;
            },
        }
    }
    Some(rest)
}

/// Compares `s` with the lower-case word `lit`, ignoring ASCII case.
pub fn eq_ignore_case(s: &str, lit: &str) -> (r: bool)
    ensures
        r == ieq(s@, lit@),
{
    let n = s.unicode_len();
    if n != lit.unicode_len() {
        return false;
    }
    let mut i: usize = 0;
    while i < n
        invariant
            n == s@.len(),
            n == lit@.len(),
            i <= n,
            forall|j: int| 0 <= j < i ==> char_ieq(#[trigger] s@[j], lit@[j]),
        decreases n - i,
    {
        let c = s.get_char(i);
        let l = lit.get_char(i);
        let lu = l as u32;
        let same = c == l || (97 <= lu && lu <= 122 && (c as u32) + 32 == lu);
        if !same {
            assert(!char_ieq(s@[i as int], lit@[i as int]));
            return false;
        }
        i += 1;
    }
    true
}

/// `s` without quote characters at either end.
pub fn unquote_str<'a>(s: &'a str) -> (r: &'a str)
    ensures
        r@ == unquote(s@),
{
    let n = s.unicode_len();
    let mut i: usize = 0;
    assert(s@.subrange(0, n as int) =~= s@);
    while i < n && s.get_char(i) == '"'
        invariant
            n == s@.len(),
            i <= n,
            trim_quotes_front(s@.subrange(i as int, n as int)) == trim_quotes_front(s@),
        decreases n - i,
    {
        proof {
            assert(s@.subrange(i as int, n as int).drop_first() =~= s@.subrange(i + 1, n as int));
        }
        i += 1;
    }
    let mut j: usize = n;
    while j > i && s.get_char(j - 1) == '"'
        invariant
            n == s@.len(),
            i <= j <= n,
            trim_quotes_back(s@.subrange(i as int, j as int)) == unquote(s@),
            trim_quotes_front(s@.subrange(i as int, n as int)) == trim_quotes_front(s@),
        decreases j,
    {
        proof {
            assert(s@.subrange(i as int, j as int).drop_last() =~= s@.subrange(i as int, j - 1));
        }
        j -= 1;
    }
    s.substring_char(i, j)
}

/// `s` without its trailing line terminator characters.
pub fn strip_line_end<'a>(s: &'a str) -> (r: &'a str)
    ensures
        r@ == strip_eol(s@),
{
    let mut j: usize = s.unicode_len();
    assert(s@.subrange(0, j as int) =~= s@);
    while j > 0 && (s.get_char(j - 1) == '\n' || s.get_char(j - 1) == '\r')
        invariant
            j <= s@.len(),
            strip_eol(s@.subrange(0, j as int)) == strip_eol(s@),
        decreases j,
    {
        proof {
            assert(s@.subrange(0, j as int).drop_last() =~= s@.subrange(0, j - 1));
        }
        j -= 1;
    }
    s.substring_char(0, j)
}

fn digit_str(d: u64) -> (r: &'static str)
    requires
        d < 10,
    ensures
        r@ == digit(d as nat),
{
    if d == 0 {
        "0"
    } else if d == 1 {
        "1"
    } else if d == 2 {
        "2"
    } else if d == 3 {
        "3"
    } else if d == 4 {
        "4"
    } else if d == 5 {
        "5"
    } else if d == 6 {
        "6"
    } else if d == 7 {
        "7"
    } else if d == 8 {
        "8"
    } else {
        "9"
    }
}

/// Decimal text of `n`.
pub fn decimal_string(n: u64) -> (r: String)
    ensures
        r@ == decimal(n as nat),
    decreases n,
{
    if n < 10 {
        String::from_str(digit_str(n))
    } else {
        let mut s = decimal_string(n / 10);
        s.append(digit_str(n % 10));
        s
    }
}

} // verus!
