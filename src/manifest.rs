//! Install manifests of the game client (`appmanifest_<id>.acf`): the
//! directory under `steamapps/common` that a game is installed in.
//!
//! A manifest is text of `"key"  "value"` lines. The directory is the value of
//! the last `"name"` line, read here from the file's bytes: the key, the
//! quotes and the blanks around them are ASCII, which no byte of a multi-byte
//! UTF-8 character can be taken for.

use vstd::prelude::*;
use vstd::string::{StringExecFns, StringSliceAdditionalSpecFns};
use vstd::utf8::{decode_utf8, valid_utf8, encode_utf8_decode_utf8};
use crate::catalog::{AppData, Game, GameView};
use crate::codec::str_from_utf8;

verus! {

/// Space, tab, carriage return or line feed.
pub open spec fn is_blank(b: u8) -> bool {
    b == 32 || b == 9 || b == 13 || b == 10
}

pub open spec fn trim_start(s: Seq<u8>) -> Seq<u8>
    decreases s.len(),
{
    if s.len() > 0 && is_blank(s[0]) {
        trim_start(s.drop_first())
    } else {
        s
    }
}

pub open spec fn trim_end(s: Seq<u8>) -> Seq<u8>
    decreases s.len(),
{
    if s.len() > 0 && is_blank(s.last()) {
        trim_end(s.drop_last())
    } else {
        s
    }
}

pub open spec fn trim(s: Seq<u8>) -> Seq<u8> {
    trim_end(trim_start(s))
}

/// `"name"`
pub open spec fn name_key() -> Seq<u8> {
    seq![34u8, 110, 97, 109, 101, 34]
}

/// The value of a `"name"  "value"` line, without its quotes.
pub open spec fn name_value(line: Seq<u8>) -> Option<Seq<u8>> {
    let t = trim(line);
    if t.len() >= 6 && t.subrange(0, 6) == name_key() {
        let v = trim(t.subrange(6, t.len() as int));
        if v.len() >= 2 && v[0] == 34 && v.last() == 34 {
            Some(v.subrange(1, v.len() - 1))
        } else {
            None
        }
    } else {
        None
    }
}

/// Looks at the lines of `s` from the last one back: `s[i..end]` is the part
/// of the current line not yet passed over.
pub open spec fn scan_names(s: Seq<u8>, i: int, end: int) -> Option<Seq<u8>>
    decreases i,
{
    if i <= 0 {
        name_value(s.subrange(0, end))
    } else if s[i - 1] == 10 {
        match name_value(s.subrange(i, end)) {
            Some(v) => Some(v),
            None => scan_names(s, i - 1, i - 1),
        }
    } else {
        scan_names(s, i - 1, end)
    }
}

/// The value of the last `"name"` line of a manifest.
pub open spec fn manifest_name(s: Seq<u8>) -> Option<Seq<u8>> {
    scan_names(s, s.len() as int, s.len() as int)
}

/// The bounds of `b[a..e]` without its blanks at either end.
fn trim_range(b: &[u8], a: usize, e: usize) -> (r: (usize, usize))
    requires
        a <= e <= b@.len(),
    ensures
        a <= r.0 <= r.1 <= e,
        trim(b@.subrange(a as int, e as int)) == b@.subrange(r.0 as int, r.1 as int),
{
    let mut lo = a;
    while lo < e && (b[lo] == 32 || b[lo] == 9 || b[lo] == 13 || b[lo] == 10)
        invariant
            a <= lo <= e <= b@.len(),
            trim_start(b@.subrange(a as int, e as int)) == trim_start(b@.subrange(lo as int, e as int)),
        decreases e - lo,
    {
        assert(b@.subrange(lo as int, e as int).drop_first() =~= b@.subrange(lo + 1, e as int));
        lo = lo + 1;
    }
    let mut hi = e;
    while hi > lo && (b[hi - 1] == 32 || b[hi - 1] == 9 || b[hi - 1] == 13 || b[hi - 1] == 10)
        invariant
            a <= lo <= hi <= e <= b@.len(),
            trim_start(b@.subrange(a as int, e as int)) == b@.subrange(lo as int, e as int),
            trim_end(b@.subrange(lo as int, e as int)) == trim_end(b@.subrange(lo as int, hi as int)),
        decreases hi - lo,
    {
        assert(b@.subrange(lo as int, hi as int).drop_last() =~= b@.subrange(lo as int, hi - 1));
        hi = hi - 1;
    }
    (lo, hi)
}

/// Where the value of the `"name"` line `b[a..e]` lies, if it is one.
fn name_value_range(b: &[u8], a: usize, e: usize) -> (r: Option<(usize, usize)>)
    requires
        a <= e <= b@.len(),
    ensures
        r matches Some((x, y)) ==> x <= y <= b@.len() && name_value(b@.subrange(a as int, e as int))
            == Some(b@.subrange(x as int, y as int)),
        r is None ==> name_value(b@.subrange(a as int, e as int)) is None,
{
    let (lo, hi) = trim_range(b, a, e);
    let ghost t = b@.subrange(lo as int, hi as int);
    if hi - lo < 6 {
        return None;
    }
    let is_key = b[lo] == 34 && b[lo + 1] == 110 && b[lo + 2] == 97 && b[lo + 3] == 109 && b[lo + 4]
        == 101 && b[lo + 5] == 34;
    assert(is_key <==> t.subrange(0, 6) == name_key()) by {
        if t.subrange(0, 6) == name_key() {
            assert(t.subrange(0, 6)[0] == 34 && t.subrange(0, 6)[5] == 34);
            assert(t.subrange(0, 6)[1] == 110 && t.subrange(0, 6)[2] == 97);
            assert(t.subrange(0, 6)[3] == 109 && t.subrange(0, 6)[4] == 101);
        }
        if is_key {
            assert(t.subrange(0, 6) =~= name_key());
        }
    }
    if !is_key {
        return None;
    }
    assert(t.subrange(6, t.len() as int) =~= b@.subrange(lo + 6, hi as int));
    let (vlo, vhi) = trim_range(b, lo + 6, hi);
    let ghost v = b@.subrange(vlo as int, vhi as int);
    if vhi - vlo < 2 || b[vlo] != 34 || b[vhi - 1] != 34 {
        return None;
    }
    assert(v.subrange(1, v.len() - 1) =~= b@.subrange(vlo + 1, vhi - 1));
    Some((vlo + 1, vhi - 1))
}

/// Where the value of the last `"name"` line of `b` lies.
fn manifest_name_range(b: &[u8]) -> (r: Option<(usize, usize)>)
    ensures
        r matches Some((x, y)) ==> x <= y <= b@.len() && manifest_name(b@) == Some(
            b@.subrange(x as int, y as int),
        ),
        r is None ==> manifest_name(b@) is None,
{
    let mut i = b.len();
    let mut end = b.len();
    while i > 0
        invariant
            i <= end <= b@.len(),
            manifest_name(b@) == scan_names(b@, i as int, end as int),
        decreases i,
    {
        if b[i - 1] == 10 {
            match name_value_range(b, i, end) {
                Some(x) => return Some(x),
                None => {
                    end = i - 1;
                },
            }
        }
        i = i - 1;
    }
    name_value_range(b, 0, end)
}

/// The directory that a manifest's text names: the value of its last
/// `"name"` line, where there is one and it is UTF-8.
pub fn manifest_install_name(text: &str) -> (r: Option<String>)
    ensures
        r is Some <==> (manifest_name(text.spec_bytes()) matches Some(v) && valid_utf8(v)),
        r matches Some(s) ==> s@ == decode_utf8(manifest_name(text.spec_bytes())->Some_0),
{
    let b = text.as_bytes();
    match manifest_name_range(b) {
        None => None,
        Some((x, y)) => match str_from_utf8(vstd::slice::slice_subrange(b, x, y)) {
            Some(s) => {
                proof {
                    encode_utf8_decode_utf8(s@);
                }
                Some(s.to_owned())
            },
            None => None,
        },
    }
}

/// Where the client installs the game of directory `dir`:
/// `<client>\steamapps\common\<dir>`.
pub fn install_path(steam_path: &str, dir: &str) -> (r: String)
    ensures
        r@ == steam_path@ + "\\steamapps\\common\\"@ + dir@,
{
    let mut r = steam_path.to_owned();
    r.append("\\steamapps\\common\\");
    r.append(dir);
    r
}

impl Game {
    /// A game found in the client's plugin configuration, with the store's
    /// metadata; it is installed exactly where an install path was found.
    pub fn scanned(appid: u32, details: AppData, install_path: Option<String>) -> (r: Game)
        ensures
            r.appid == appid,
            r.details == details,
            r.installed == install_path is Some,
            install_path matches Some(p) ==> r.path == p,
            install_path is None ==> r.path@ == Seq::<char>::empty(),
    {
        match install_path {
            Some(p) => Game { appid, details, installed: true, path: p },
            None => Game { appid, details, installed: false, path: String::new() },
        }
    }
}

} // verus!
