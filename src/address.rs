use vstd::prelude::*;
use vstd::string::*;

use crate::email::Email;
use crate::text::{eq_ignore_case, ieq, opt_view, split_at_first, split_first};

verus! {

/// The view of an optional address.
pub open spec fn opt_email(o: Option<Email>) -> Option<(Seq<char>, Seq<char>)> {
    match o {
        Some(e) => Some(e@),
        None => None,
    }
}

/// `s` without one leading `<` and without one trailing `>`, where present.
pub open spec fn strip_brackets(s: Seq<char>) -> Seq<char> {
    let a = if s.len() > 0 && s[0] == '<' {
        s.drop_first()
    } else {
        s
    };
    if a.len() > 0 && a.last() == '>' {
        a.drop_last()
    } else {
        a
    }
}

/// A bare `local@domain` token, split at its first `@`.
pub open spec fn bare_address(s: Seq<char>) -> Option<(Seq<char>, Seq<char>)> {
    split_at_first(s, '@')
}

/// A `from:<local@domain>` or `to:<local@domain>` token: the keyword, in any
/// ASCII case, ends at the first `:`, and the brackets may be absent.
pub open spec fn path_address(arg: Option<Seq<char>>) -> Option<(Seq<char>, Seq<char>)> {
    match arg {
        None => None,
        Some(s) => match split_at_first(s, ':') {
            None => None,
            Some((kw, rest)) => if ieq(kw, "from"@) || ieq(kw, "to"@) {
                bare_address(strip_brackets(rest))
            } else {
                None
            },
        },
    }
}

fn strip_brackets_str<'a>(s: &'a str) -> (r: &'a str)
    ensures
        r@ == strip_brackets(s@),
{
    let n = s.unicode_len();
    let mut from: usize = 0;
    if n > 0 && s.get_char(0) == '<' {
        from = 1;
    }
    let mut to: usize = n;
    if to > from && s.get_char(to - 1) == '>' {
        to = to - 1;
    }
    let r = s.substring_char(from, to);
    proof {
        let a = if s@.len() > 0 && s@[0] == '<' {
            s@.drop_first()
        } else {
            s@
        };
        assert(a =~= s@.subrange(from as int, n as int));
        if a.len() > 0 && a.last() == '>' {
            assert(a.drop_last() =~= r@);
        } else {
            assert(a =~= r@);
        }
    }
    r
}

/// Parses a bare `local@domain` token.
pub fn parse_bare(s: &str) -> (r: Option<Email>)
    ensures
        opt_email(r) == bare_address(s@),
{
    match split_first(s, '@') {
        Some((local, domain)) => Some(Email::new(String::from_str(local), String::from_str(domain))),
        None => None,
    }
}

/// Parses the argument of `MAIL` or `RCPT`: `from:<local@domain>` or
/// `to:<local@domain>`.
pub fn grab_email(arg: Option<&str>) -> (r: Option<Email>)
    ensures
        opt_email(r) == path_address(opt_view(arg)),
{
    match arg {
        None => None,
        Some(full) => match split_first(full, ':') {
            None => None,
            Some((kw, rest)) => {
                if eq_ignore_case(kw, "from") || eq_ignore_case(kw, "to") {
                    parse_bare(strip_brackets_str(rest))
                } else {
                    None
                }
            },
        },
    }
}

} // verus!
