//! The League Client lockfile: `name:pid:port:password:protocol`.

use vstd::prelude::*;

use crate::text::{chars_of, str_eq, string_from_chars, trim_str, trimmed};

verus! {

/// The pieces of `s` between the separators, as `str::split` gives them.
pub open spec fn split_chars(s: Seq<char>, sep: char) -> Seq<Seq<char>>
    decreases s.len(),
{
    if s.len() == 0 {
        seq![Seq::empty()]
    } else {
        let rest = split_chars(s.drop_last(), sep);
        if s.last() == sep {
            rest.push(Seq::empty())
        } else {
            rest.update(rest.len() - 1, rest.last().push(s.last()))
        }
    }
}

pub proof fn lemma_split_nonempty(s: Seq<char>, sep: char)
    ensures
        split_chars(s, sep).len() >= 1,
    decreases s.len(),
{
    if s.len() > 0 {
        lemma_split_nonempty(s.drop_last(), sep);
    }
}

pub open spec fn views(v: Seq<Vec<char>>) -> Seq<Seq<char>> {
    v.map_values(|p: Vec<char>| p@)
}

/// Splits `s` at every `sep`.
pub fn split_on(s: &str, sep: char) -> (r: Vec<String>)
    ensures
        r@.map_values(|p: String| p@) == split_chars(s@, sep),
{
    let chars = chars_of(s);
    let mut parts: Vec<String> = Vec::new();
    let mut current: Vec<char> = Vec::new();
    let mut i: usize = 0;
    while i < chars.len()
        invariant
            chars@ == s@,
            i <= chars.len(),
            parts@.map_values(|p: String| p@).push(current@) == split_chars(s@.take(i as int), sep),
        decreases chars.len() - i,
    {
        let c = chars[i];
        let ghost before = parts@.map_values(|p: String| p@);
        let ghost cur = current@;
        proof {
            assert(s@.take(i + 1).drop_last() == s@.take(i as int));
            assert(s@.take(i + 1).last() == c);
            lemma_split_nonempty(s@.take(i as int), sep);
        }
        if c == sep {
            let piece = string_from_chars(&current);
            parts.push(piece);
            current = Vec::new();
            proof {
                assert(parts@.map_values(|p: String| p@) == before.push(cur));
                assert(parts@.map_values(|p: String| p@).push(current@) == before.push(cur).push(
                    Seq::empty(),
                ));
            }
        } else {
            current.push(c);
            proof {
                assert(parts@.map_values(|p: String| p@) == before);
                assert(before.push(cur).update(before.len() as int, cur.push(c)) == before.push(
                    cur.push(c),
                ));
            }
        }
        i = i + 1;
    }
    proof {
        assert(s@.take(chars@.len() as int) == s@);
    }
    let ghost before = parts@.map_values(|p: String| p@);
    let piece = string_from_chars(&current);
    parts.push(piece);
    proof {
        assert(parts@.map_values(|p: String| p@) == before.push(current@));
    }
    parts
}

pub open spec fn is_digit(c: char) -> bool {
    '0' <= c && c <= '9'
}

/// The number written by the decimal digits `s`.
pub open spec fn digits_value(s: Seq<char>) -> int
    decreases s.len(),
{
    if s.len() == 0 {
        0
    } else {
        digits_value(s.drop_last()) * 10 + (s.last() as int - '0' as int)
    }
}

/// The digits of an unsigned number as `str::parse` reads them: an optional
/// `+`, then at least one decimal digit and nothing else.
pub open spec fn unsigned_digits(s: Seq<char>) -> Option<Seq<char>> {
    let d = strip_plus(s);
    if d.len() > 0 && all_digits(d) {
        Some(d)
    } else {
        None
    }
}

/// `s` without a leading `+`.
pub open spec fn strip_plus(s: Seq<char>) -> Seq<char> {
    if s.len() > 0 && s[0] == '+' {
        s.drop_first()
    } else {
        s
    }
}

pub open spec fn all_digits(d: Seq<char>) -> bool {
    forall|i: int| 0 <= i < d.len() ==> is_digit(#[trigger] d[i])
}

/// The value `str::parse` gives for an unsigned integer type whose largest
/// value is `max`.
pub open spec fn parse_unsigned(s: Seq<char>, max: int) -> Option<int> {
    match unsigned_digits(s) {
        Some(d) => if digits_value(d) <= max {
            Some(digits_value(d))
        } else {
            None
        },
        None => None,
    }
}

pub proof fn lemma_digits_value_nonneg(s: Seq<char>)
    requires
        forall|i: int| 0 <= i < s.len() ==> is_digit(#[trigger] s[i]),
    ensures
        digits_value(s) >= 0,
    decreases s.len(),
{
    if s.len() > 0 {
        lemma_digits_value_nonneg(s.drop_last());
    }
}

/// Reads an unsigned number of at most `max`.
pub fn parse_unsigned_bounded(s: &str, max: u64) -> (r: Option<u64>)
    requires
        max <= 0xffff_ffff,
    ensures
        r matches Some(v) ==> parse_unsigned(s@, max as int) == Some(v as int),
        r is None ==> parse_unsigned(s@, max as int) is None,
{
    let chars = chars_of(s);
    let start: usize = if chars.len() > 0 && chars[0] == '+' {
        1
    } else {
        0
    };
    let ghost d = strip_plus(s@);
    proof {
        assert(d == s@.skip(start as int));
    }
    if start >= chars.len() {
        return None;
    }
    let mut value: u64 = 0;
    let mut i: usize = start;
    while i < chars.len()
        invariant
            chars@ == s@,
            start <= i <= chars.len(),
            d == s@.skip(start as int),
            d == strip_plus(s@),
            max <= 0xffff_ffff,
            forall|j: int| start <= j < i ==> is_digit(#[trigger] s@[j]),
            value as int == if digits_value(s@.subrange(start as int, i as int)) <= max {
                digits_value(s@.subrange(start as int, i as int))
            } else {
                max + 1
            },
        decreases chars.len() - i,
    {
        let c = chars[i];
        if !('0' <= c && c <= '9') {
            proof {
                let k = (i - start) as int;
                assert(d[k] == c);
                assert(!is_digit(d[k]));
                assert(!(forall|q: int| 0 <= q < d.len() ==> is_digit(#[trigger] d[q])));
                assert(unsigned_digits(s@) is None);
            }
            return None;
        }
        let digit = (c as u32 - '0' as u32) as u64;
        proof {
            let p = s@.subrange(start as int, i as int);
            assert(s@.subrange(start as int, i + 1) == p.push(c));
            assert(s@.subrange(start as int, i + 1).drop_last() == p);
            assert forall|j: int| 0 <= j < p.len() implies is_digit(#[trigger] p[j]) by {
                assert(p[j] == s@[start + j]);
            }
            lemma_digits_value_nonneg(p);
        }
        if value > max {
            value = max + 1;
        } else {
            let next = value * 10 + digit;
            value = if next > max {
                max + 1
            } else {
                next
            };
        }
        i = i + 1;
    }
    proof {
        assert(s@.subrange(start as int, chars@.len() as int) == d);
        assert forall|j: int| 0 <= j < d.len() implies is_digit(#[trigger] d[j]) by {
            assert(d[j] == s@[start + j]);
        }
    }
    if value > max {
        None
    } else {
        Some(value)
    }
}

pub struct LockfileCredentials {
    pub port: u16,
    pub password: String,
}

#[derive(Debug, Clone, Copy, PartialEq, Eq, Structural)]
pub enum LcuAdapterError {
    InvalidLockfile,
    Http,
}

/// The credentials a lockfile holds, or `None` when it is not a valid one:
/// five fields, a name and a password that are not blank, a process id and a
/// port that are non-zero numbers, and the protocol `https`.
pub open spec fn spec_parse_lockfile(contents: Seq<char>) -> Option<(int, Seq<char>)> {
    let parts = split_chars(trimmed(contents), ':');
    if parts.len() != 5 {
        None
    } else {
        let name = trimmed(parts[0]);
        let pid = trimmed(parts[1]);
        let port = trimmed(parts[2]);
        let password = trimmed(parts[3]);
        let protocol = trimmed(parts[4]);
        if name.len() == 0 || password.len() == 0 {
            None
        } else if parse_unsigned(pid, 0xffff_ffff) is None || parse_unsigned(
            pid,
            0xffff_ffff,
        ) == Some(0int) {
            None
        } else if parse_unsigned(port, 0xffff) is None || parse_unsigned(port, 0xffff) == Some(
            0int,
        ) {
            None
        } else if protocol != "https"@ {
            None
        } else {
            Some((parse_unsigned(port, 0xffff)->0, password))
        }
    }
}

pub fn parse_lockfile(contents: &str) -> (r: Result<LockfileCredentials, LcuAdapterError>)
    ensures
        spec_parse_lockfile(contents@) matches Some((port, password)) ==> (r matches Ok(c)
            && c.port == port && c.password@ == password),
        spec_parse_lockfile(contents@) is None ==> r == Err::<
            LockfileCredentials,
            LcuAdapterError,
        >(LcuAdapterError::InvalidLockfile),
{
    let parts = split_on(trim_str(contents), ':');
    proof {
        assert(parts@.map_values(|p: String| p@).len() == parts@.len());
    }
    if parts.len() != 5 {
        return Err(LcuAdapterError::InvalidLockfile);
    }
    let ghost views = parts@.map_values(|p: String| p@);
    proof {
        assert(views[0] == parts@[0]@);
        assert(views[1] == parts@[1]@);
        assert(views[2] == parts@[2]@);
        assert(views[3] == parts@[3]@);
        assert(views[4] == parts@[4]@);
    }
    let name = trim_str(parts[0].as_str());
    let pid = trim_str(parts[1].as_str());
    let port = trim_str(parts[2].as_str());
    let password = trim_str(parts[3].as_str());
    let protocol = trim_str(parts[4].as_str());
    if name.is_empty() || password.is_empty() {
        return Err(LcuAdapterError::InvalidLockfile);
    }
    let parsed_pid = match parse_unsigned_bounded(pid, 0xffff_ffff) {
        Some(v) => v,
        None => {
            return Err(LcuAdapterError::InvalidLockfile);
        },
    };
    if parsed_pid == 0 {
        return Err(LcuAdapterError::InvalidLockfile);
    }
    let parsed_port = match parse_unsigned_bounded(port, 0xffff) {
        Some(v) => v,
        None => {
            return Err(LcuAdapterError::InvalidLockfile);
        },
    };
    if parsed_port == 0 {
        return Err(LcuAdapterError::InvalidLockfile);
    }
    if !str_eq(protocol, "https") {
        return Err(LcuAdapterError::InvalidLockfile);
    }
    Ok(LockfileCredentials { port: parsed_port as u16, password: password.to_owned() })
}

impl LockfileCredentials {
    /// Neither the port nor the password of the credentials shows in their
    /// debug form.
    pub open spec fn spec_debug_text(&self) -> Seq<char> {
        "LockfileCredentials { port: \"<redacted>\", password: \"<redacted>\" }"@
    }

    /// The debug form of the credentials, with the port and the password left out.
    pub fn debug_text(&self) -> (r: String)
        ensures
            r@ == self.spec_debug_text(),
    {
        proof {
            reveal_strlit("LockfileCredentials { port: \"<redacted>\", password: \"<redacted>\" }");
        }
        "LockfileCredentials { port: \"<redacted>\", password: \"<redacted>\" }".to_owned()
    }
}

} // verus!

verus! {

/// The debug form of the credentials never depends on them: any two
/// credentials read alike, whatever their ports and passwords.
pub proof fn lemma_debug_text_hides_credentials(a: LockfileCredentials, b: LockfileCredentials)
    ensures
        a.spec_debug_text() == b.spec_debug_text(),
{
}

} // verus!
