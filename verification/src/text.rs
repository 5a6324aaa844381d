//! Character-level text helpers used by validation and normalisation.

use vstd::prelude::*;

verus! {

/// The Unicode `White_Space` property, which `char::is_whitespace` and
/// `str::trim` go by.
pub open spec fn is_white_space(c: char) -> bool {
    let u = c as u32;
    ||| 0x09 <= u <= 0x0D
    ||| u == 0x20
    ||| u == 0x85
    ||| u == 0xA0
    ||| u == 0x1680
    ||| 0x2000 <= u <= 0x200A
    ||| u == 0x2028
    ||| u == 0x2029
    ||| u == 0x202F
    ||| u == 0x205F
    ||| u == 0x3000
}

/// `s` without its leading and trailing white space.
pub open spec fn trimmed(s: Seq<char>) -> Seq<char>
    decreases s.len(),
{
    if s.len() == 0 {
        s
    } else if is_white_space(s[0]) {
        trimmed(s.drop_first())
    } else if is_white_space(s.last()) {
        trimmed(s.drop_last())
    } else {
        s
    }
}

/// ASCII upper-case letters mapped to lower case; every other character kept.
pub open spec fn ascii_lower(c: char) -> char {
    if 'A' <= c && c <= 'Z' {
        ((c as u32) + 32) as char
    } else {
        c
    }
}

pub open spec fn ascii_lowercase_chars(s: Seq<char>) -> Seq<char> {
    Seq::new(s.len(), |i: int| ascii_lower(s[i]))
}

/// Calls `str::trim`, which removes the leading and trailing characters that
/// have the Unicode `White_Space` property.
#[verifier::external_body]
pub(crate) fn trim_str(s: &str) -> (r: &str)
    ensures
        r@ == trimmed(s@),
{
    s.trim()
}

/// Whether two string slices hold the same characters.
pub(crate) fn str_eq(a: &str, b: &str) -> (r: bool)
    ensures
        r == (a@ == b@),
{
    a.to_owned() == b.to_owned()
}

fn ascii_lower_char(c: char) -> (r: char)
    ensures
        r == ascii_lower(c),
{
    if 'A' <= c && c <= 'Z' {
        let u: u8 = c as u8;
        (u + 32) as char
    } else {
        c
    }
}

/// `s` with `A`..`Z` mapped to `a`..`z` and every other character kept.
pub(crate) fn ascii_lowercase(s: &str) -> (r: String)
    ensures
        r@ == ascii_lowercase_chars(s@),
{
    let chars = chars_of(s);
    let mut lowered: Vec<char> = Vec::new();
    let mut i: usize = 0;
    while i < chars.len()
        invariant
            i <= chars@.len(),
            chars@ == s@,
            lowered@.len() == i,
            forall|k: int| 0 <= k < i ==> lowered@[k] == ascii_lower(#[trigger] chars@[k]),
        decreases chars@.len() - i,
    {
        lowered.push(ascii_lower_char(chars[i]));
        i = i + 1;
    }
    let r = string_from_chars(&lowered);
    proof {
        assert(r@ =~= ascii_lowercase_chars(s@));
    }
    r
}

/// Appends one character with `String::push`.
#[verifier::external_body]
fn push_char(s: &mut String, c: char)
    ensures
        final(s)@ == old(s)@.push(c),
{
    s.push(c)
}

/// The characters, in order, as a `String`.
pub(crate) fn string_from_chars(chars: &Vec<char>) -> (r: String)
    ensures
        r@ == chars@,
{
    let mut out = String::new();
    let mut i: usize = 0;
    while i < chars.len()
        invariant
            i <= chars@.len(),
            out@ == chars@.take(i as int),
        decreases chars@.len() - i,
    {
        push_char(&mut out, chars[i]);
        proof {
            assert(chars@.take(i + 1) == chars@.take(i as int).push(chars@[i as int]));
        }
        i = i + 1;
    }
    proof {
        assert(chars@.take(chars@.len() as int) == chars@);
    }
    out
}

/// The characters of `a` followed by those of `b`.
pub(crate) fn concat_strs(a: &str, b: &str) -> (r: String)
    ensures
        r@ == a@ + b@,
{
    let mut out = a.to_owned();
    out.append(b);
    out
}

/// Whether `s` has at most `max` characters.
pub fn char_count_at_most(s: &str, max: usize) -> (r: bool)
    ensures
        r == (s@.len() <= max),
{
    broadcast use vstd::string::axiom_spec_iter;

    let mut n: usize = 0;
    for c in it: s.chars()
        invariant
            n == it.index(),
            n <= max,
            it.seq() == s@,
    {
        if n == max {
            return false;
        }
        n = n + 1;
    }
    true
}

/// The characters of `s`, in order.
pub fn chars_of(s: &str) -> (r: Vec<char>)
    ensures
        r@ == s@,
{
    broadcast use vstd::string::axiom_spec_iter;

    let mut out: Vec<char> = Vec::new();
    for c in it: s.chars()
        invariant
            out@ == s@.take(out.len() as int),
            out.len() == it.index(),
            it.seq() == s@,
    {
        out.push(c);
        proof {
            assert(s@.take(out.len() as int) == s@.take(out.len() - 1).push(c));
        }
    }
    proof {
        assert(s@.take(s@.len() as int) == s@);
    }
    out
}

/// `s` trimmed, as an owned string.
pub fn trimmed_string(s: &str) -> (r: String)
    ensures
        r@ == trimmed(s@),
{
    trim_str(s).to_owned()
}

/// Whether `s` is empty once trimmed.
pub fn is_blank(s: &str) -> (r: bool)
    ensures
        r == (trimmed(s@).len() == 0),
{
    trim_str(s).is_empty()
}

/// Whether two strings are equal ignoring ASCII case.
pub fn eq_ignore_ascii_case(a: &str, b: &str) -> (r: bool)
    ensures
        r == (ascii_lowercase_chars(a@) == ascii_lowercase_chars(b@)),
{
    let la = ascii_lowercase(a);
    let lb = ascii_lowercase(b);
    la == lb
}

/// A player name as it is matched: trimmed and in ASCII lower case.
pub open spec fn normalized_player_name(s: Seq<char>) -> Seq<char> {
    ascii_lowercase_chars(trimmed(s))
}

pub fn normalize_player_name(value: &str) -> (r: String)
    ensures
        r@ == normalized_player_name(value@),
{
    ascii_lowercase(trim_str(value))
}

} // verus!
