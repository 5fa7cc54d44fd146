//! Application ids typed as text, and finding a game's install path by one.

use vstd::prelude::*;
use crate::catalog::{Game, GameMap};

verus! {

pub open spec fn is_digit(c: char) -> bool {
    '0' <= c && c <= '9'
}

pub open spec fn all_digits(s: Seq<char>) -> bool {
    forall|i: int| 0 <= i < s.len() ==> is_digit(#[trigger] s[i])
}

/// The number that a string of decimal digits denotes.
pub open spec fn decimal_value(s: Seq<char>) -> int
    decreases s.len(),
{
    if s.len() == 0 {
        0
    } else {
        decimal_value(s.drop_last()) * 10 + (s.last() as int - '0' as int)
    }
}

/// The digits of an id: the text without one leading `+`.
pub open spec fn digits_part(s: Seq<char>) -> Seq<char> {
    if s.len() > 0 && s[0] == '+' {
        s.drop_first()
    } else {
        s
    }
}

/// The text is an optional `+` and one or more decimal digits whose value
/// fits in 32 bits.
pub open spec fn is_appid_text(s: Seq<char>) -> bool {
    let d = digits_part(s);
    d.len() > 0 && all_digits(d) && decimal_value(d) <= u32::MAX
}

proof fn lemma_value_grows(s: Seq<char>, i: int, k: int)
    requires
        0 <= i <= k <= s.len(),
        all_digits(s),
    ensures
        0 <= decimal_value(s.subrange(0, i)) <= decimal_value(s.subrange(0, k)),
    decreases k - i,
{
    if i < k {
        lemma_value_grows(s, i, k - 1);
        assert(s.subrange(0, k).drop_last() =~= s.subrange(0, k - 1));
        assert(is_digit(s[k - 1]));
    } else {
        lemma_value_nonneg(s.subrange(0, i));
    }
}

proof fn lemma_value_nonneg(s: Seq<char>)
    requires
        all_digits(s),
    ensures
        decimal_value(s) >= 0,
    decreases s.len(),
{
    if s.len() > 0 {
        assert(all_digits(s.drop_last())) by {
            assert forall|i: int| 0 <= i < s.drop_last().len() implies is_digit(
                #[trigger] s.drop_last()[i],
            ) by {
                assert(s.drop_last()[i] == s[i]);
            }
        }
        lemma_value_nonneg(s.drop_last());
        assert(is_digit(s[s.len() - 1]));
    }
}

/// Reads an application id as `u32`'s own parse does: an optional `+`, then
/// decimal digits only, of a value that fits.
pub fn parse_appid(s: &str) -> (r: Option<u32>)
    ensures
        r is Some <==> is_appid_text(s@),
        r matches Some(n) ==> n == decimal_value(digits_part(s@)),
{
    let len = s.unicode_len();
    let mut start: usize = 0;
    if len > 0 && s.get_char(0) == '+' {
        start = 1;
    }
    let ghost d = digits_part(s@);
    assert(d =~= s@.subrange(start as int, len as int));
    if start == len {
        return None;
    }
    let mut value: u64 = 0;
    let mut i: usize = start;
    while i < len
        invariant
            start <= i <= len,
            len == s@.len(),
            d == s@.subrange(start as int, len as int),
            d == digits_part(s@),
            all_digits(d.subrange(0, i - start)),
            value == decimal_value(d.subrange(0, i - start)),
            value <= u32::MAX,
        decreases len - i,
    {
        let c = s.get_char(i);
        if c < '0' || c > '9' {
            assert(d[i - start] == c);
            assert(!is_digit(d[i - start]));
            return None;
        }
        let digit = (c as u32 - '0' as u32) as u64;
        let ghost prev = d.subrange(0, i - start);
        let ghost next = d.subrange(0, i + 1 - start);
        assert(next.drop_last() =~= prev);
        assert(next.last() == c);
        assert(all_digits(next)) by {
            assert forall|j: int| 0 <= j < next.len() implies is_digit(#[trigger] next[j]) by {
                if j < prev.len() {
                    assert(next[j] == prev[j]);
                }
            }
        }
        value = value * 10 + digit;
        assert(value == decimal_value(next));
        i = i + 1;
        if value > 0xffff_ffffu64 {
            proof {
                if all_digits(d) {
                    lemma_value_grows(d, i - start, d.len() as int);
                    assert(d.subrange(0, d.len() as int) =~= d);
                }
            }
            return None;
        }
    }
    assert(d.subrange(0, len - start) =~= d);
    Some(value as u32)
}

/// Why no install path was found for a typed id.
#[derive(Debug, Clone, Copy, PartialEq, Eq, Structural)]
pub enum ResolveError {
    /// The text is not an application id.
    NotNumeric,
    /// The catalog has no game of that id.
    NotInCatalog,
}

impl GameMap {
    /// The install path that the catalog records for the id typed as `text`.
    pub fn install_path_of(&self, text: &str) -> (r: Result<&String, ResolveError>)
        ensures
            !is_appid_text(text@) ==> r == Err::<&String, ResolveError>(ResolveError::NotNumeric),
            is_appid_text(text@) && !self.has_appid(decimal_value(digits_part(text@)) as u32) ==> r
                == Err::<&String, ResolveError>(ResolveError::NotInCatalog),
            r matches Ok(p) ==> exists|i: int|
                0 <= i < self.0@.len() && self.0@[i].appid == decimal_value(digits_part(text@))
                    && self.0@[i].path == *p && forall|j: int|
                    i < j < self.0@.len() ==> #[trigger] self.0@[j].appid != self.0@[i].appid,
            is_appid_text(text@) && self.has_appid(decimal_value(digits_part(text@)) as u32) ==> r is Ok,
    {
        match parse_appid(text) {
            None => Err(ResolveError::NotNumeric),
            Some(id) => match self.get(id) {
                Some(g) => Ok(&g.path),
                None => Err(ResolveError::NotInCatalog),
            },
        }
    }
}

/// `s` is `prefix`, then something, then `suffix`; that something is given.
pub open spec fn framed_by(s: Seq<char>, prefix: Seq<char>, suffix: Seq<char>) -> Option<Seq<char>> {
    if s.len() >= prefix.len() + suffix.len() && s.subrange(0, prefix.len() as int) == prefix
        && s.subrange(s.len() - suffix.len(), s.len() as int) == suffix {
        Some(s.subrange(prefix.len() as int, s.len() - suffix.len()))
    } else {
        None
    }
}

/// The id in a file name `prefix<id>suffix`, where the part between is an id.
pub open spec fn framed_appid(s: Seq<char>, prefix: Seq<char>, suffix: Seq<char>) -> Option<u32> {
    match framed_by(s, prefix, suffix) {
        Some(m) => if is_appid_text(m) {
            Some(decimal_value(digits_part(m)) as u32)
        } else {
            None
        },
        None => None,
    }
}

fn chars_match(s: &str, at: usize, p: &str) -> (r: bool)
    requires
        at + p@.len() <= s@.len(),
        s@.len() <= usize::MAX,
    ensures
        r == (s@.subrange(at as int, at + p@.len()) == p@),
{
    let n = p.unicode_len();
    let mut i: usize = 0;
    while i < n
        invariant
            n == p@.len(),
            s@.len() <= usize::MAX,
            at + n <= s@.len(),
            i <= n,
            forall|j: int| 0 <= j < i ==> s@[at + j] == p@[j],
        decreases n - i,
    {
        if s.get_char(at + i) != p.get_char(i) {
            assert(s@.subrange(at as int, at + p@.len())[i as int] != p@[i as int]);
            return false;
        }
        i = i + 1;
    }
    assert(s@.subrange(at as int, at + p@.len()) =~= p@);
    true
}

fn framed_appid_of(s: &str, prefix: &str, suffix: &str) -> (r: Option<u32>)
    ensures
        r == framed_appid(s@, prefix@, suffix@),
{
    let len = s.unicode_len();
    let pl = prefix.unicode_len();
    let sl = suffix.unicode_len();
    if len < pl || len - pl < sl {
        return None;
    }
    if !chars_match(s, 0, prefix) || !chars_match(s, len - sl, suffix) {
        return None;
    }
    let middle = s.substring_char(pl, len - sl);
    parse_appid(middle)
}

/// The id of an install manifest named `appmanifest_<id>.acf`.
pub fn manifest_appid(file_name: &str) -> (r: Option<u32>)
    ensures
        r == framed_appid(file_name@, "appmanifest_"@, ".acf"@),
{
    framed_appid_of(file_name, "appmanifest_", ".acf")
}

/// The id of an unlock script named `<id>.lua`.
pub fn unlock_script_appid(file_name: &str) -> (r: Option<u32>)
    ensures
        r == framed_appid(file_name@, ""@, ".lua"@),
{
    framed_appid_of(file_name, "", ".lua")
}

} // verus!
