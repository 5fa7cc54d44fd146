//! The binary cache file of the catalog.
//!
//! ```text
//! File     := u32 entryCount, Entry*
//! Entry    := u32 appid, u8 installed, LPString appType, LPString name,
//!             LPString headerImageUrl, u8 isFree, LPString localPath,
//!             u32 reqCount, (LPString key, LPString value)*
//! LPString := u32 byteLength, byteLength bytes of UTF-8
//! ```
//! Integers are little-endian; there is no padding.

use vstd::prelude::*;
use vstd::bytes::{spec_u32_from_le_bytes, spec_u32_to_le_bytes, lemma_auto_spec_u32_to_from_le_bytes, u32_from_le_bytes, u32_to_le_bytes};
use vstd::utf8::{encode_utf8, decode_utf8, valid_utf8, encode_utf8_decode_utf8, encode_utf8_valid_utf8};
use vstd::string::StringSliceAdditionalSpecFns;
use crate::catalog::{AppData, AppDataView, Game, GameMap, GameView, Requirement, games_view, requirements_view};

verus! {

/// Why a catalog could not be read or written.
#[derive(Clone, Copy, Debug, PartialEq, Eq, Structural)]
pub enum FormatError {
    /// The bytes end before the record that is being read does.
    UnexpectedEnd,
    /// The bytes of a string are not UTF-8.
    InvalidUtf8,
    /// A string or a count does not fit in the format's 32-bit length fields.
    TooLarge,
}

// ---------------------------------------------------------------------------
// The format, as the bytes that a catalog is written to.

pub open spec fn flag_byte(b: bool) -> u8 {
    if b { 1 } else { 0 }
}

pub open spec fn le32(n: u32) -> Seq<u8> {
    spec_u32_to_le_bytes(n)
}

/// A string: its UTF-8 length, then its UTF-8 bytes.
pub open spec fn lp_string(s: Seq<char>) -> Seq<u8> {
    le32(encode_utf8(s).len() as u32) + encode_utf8(s)
}

pub open spec fn encode_requirements(r: Seq<(Seq<char>, Seq<char>)>) -> Seq<u8>
    decreases r.len(),
{
    if r.len() == 0 {
        Seq::empty()
    } else {
        encode_requirements(r.drop_last()) + lp_string(r.last().0) + lp_string(r.last().1)
    }
}

pub open spec fn encode_entry(g: GameView) -> Seq<u8> {
    le32(g.appid) + seq![flag_byte(g.installed)] + lp_string(g.details.app_type) + lp_string(
        g.details.name,
    ) + lp_string(g.details.header_image) + seq![flag_byte(g.details.is_free)] + lp_string(g.path)
        + le32(g.details.requirements.len() as u32) + encode_requirements(g.details.requirements)
}

pub open spec fn encode_entries(c: Seq<GameView>) -> Seq<u8>
    decreases c.len(),
{
    if c.len() == 0 {
        Seq::empty()
    } else {
        encode_entries(c.drop_last()) + encode_entry(c.last())
    }
}

pub open spec fn encode_catalog(c: Seq<GameView>) -> Seq<u8> {
    le32(c.len() as u32) + encode_entries(c)
}

pub open spec fn fits_u32(n: int) -> bool {
    0 <= n <= u32::MAX
}

pub open spec fn string_fits(s: Seq<char>) -> bool {
    fits_u32(encode_utf8(s).len() as int)
}

pub open spec fn requirements_fit(r: Seq<(Seq<char>, Seq<char>)>) -> bool {
    &&& fits_u32(r.len() as int)
    &&& forall|i: int| #![trigger r[i]] 0 <= i < r.len() ==> string_fits(r[i].0) && string_fits(r[i].1)
}

pub open spec fn entry_fits(g: GameView) -> bool {
    &&& string_fits(g.details.app_type)
    &&& string_fits(g.details.name)
    &&& string_fits(g.details.header_image)
    &&& string_fits(g.path)
    &&& requirements_fit(g.details.requirements)
}

/// Every count and string length of the catalog fits its 32-bit field.
pub open spec fn encodable(c: Seq<GameView>) -> bool {
    &&& fits_u32(c.len() as int)
    &&& forall|i: int| 0 <= i < c.len() ==> entry_fits(#[trigger] c[i])
}

// ---------------------------------------------------------------------------
// Writing.

fn push_bytes(out: &mut Vec<u8>, b: &[u8])
    ensures
        final(out)@ == old(out)@ + b@,
{
    let mut i: usize = 0;
    while i < b.len()
        invariant
            i <= b@.len(),
            out@ == old(out)@ + b@.subrange(0, i as int),
        decreases b@.len() - i,
    {
        out.push(b[i]);
        i = i + 1;
        assert(b@.subrange(0, i as int) =~= b@.subrange(0, i - 1) + seq![b@[i - 1]]);
    }
    assert(b@.subrange(0, i as int) =~= b@);
}

fn push_u32(out: &mut Vec<u8>, n: u32)
    ensures
        final(out)@ == old(out)@ + le32(n),
{
    let b = u32_to_le_bytes(n);
    push_bytes(out, b.as_slice());
}

fn push_flag(out: &mut Vec<u8>, f: bool)
    ensures
        final(out)@ == old(out)@ + seq![flag_byte(f)],
{
    out.push(if f { 1u8 } else { 0u8 });
}

/// Appends `s` as a length-prefixed string; fails, leaving `out` as it was,
/// when its UTF-8 length does not fit in 32 bits.
pub fn write_string(out: &mut Vec<u8>, s: &str) -> (r: Result<(), FormatError>)
    ensures
        r is Ok <==> string_fits(s@),
        r is Ok ==> final(out)@ == old(out)@ + lp_string(s@),
        r is Err ==> r == Err::<(), FormatError>(FormatError::TooLarge) && final(out)@ == old(out)@,
{
    let bytes = s.as_bytes();
    if bytes.len() > 0xffff_ffffusize {
        return Err(FormatError::TooLarge);
    }
    push_u32(out, bytes.len() as u32);
    push_bytes(out, bytes);
    assert(out@ =~= old(out)@ + lp_string(s@));
    Ok(())
}

fn write_requirements(out: &mut Vec<u8>, reqs: &Vec<Requirement>) -> (r: Result<(), FormatError>)
    ensures
        r is Ok <==> requirements_fit(requirements_view(reqs@)),
        r is Ok ==> final(out)@ == old(out)@ + le32(reqs@.len() as u32) + encode_requirements(
            requirements_view(reqs@),
        ),
        r is Err ==> r == Err::<(), FormatError>(FormatError::TooLarge),
{
    let ghost rv = requirements_view(reqs@);
    if reqs.len() > 0xffff_ffffusize {
        return Err(FormatError::TooLarge);
    }
    push_u32(out, reqs.len() as u32);
    let ghost start = out@;
    let mut i: usize = 0;
    while i < reqs.len()
        invariant
            i <= reqs@.len(),
            rv == requirements_view(reqs@),
            fits_u32(reqs@.len() as int),
            forall|k: int| #![trigger rv[k]] 0 <= k < i ==> string_fits(rv[k].0) && string_fits(rv[k].1),
            out@ == start + encode_requirements(rv.subrange(0, i as int)),
        decreases reqs@.len() - i,
    {
        assert(rv[i as int] == (reqs@[i as int].0@, reqs@[i as int].1@));
        let key = reqs[i].0.as_str();
        let value = reqs[i].1.as_str();
        let rk = write_string(out, key);
        if rk.is_err() {
            assert(!string_fits(rv[i as int].0));
            return Err(FormatError::TooLarge);
        }
        let rvv = write_string(out, value);
        if rvv.is_err() {
            assert(!string_fits(rv[i as int].1));
            return Err(FormatError::TooLarge);
        }
        assert(rv.subrange(0, i + 1).drop_last() =~= rv.subrange(0, i as int));
        i = i + 1;
    }
    assert(rv.subrange(0, i as int) =~= rv);
    Ok(())
}

fn write_entry(out: &mut Vec<u8>, g: &Game) -> (r: Result<(), FormatError>)
    ensures
        r is Ok <==> entry_fits(g@),
        r is Ok ==> final(out)@ == old(out)@ + encode_entry(g@),
        r is Err ==> r == Err::<(), FormatError>(FormatError::TooLarge),
{
    let ghost o = out@;
    push_u32(out, g.appid);
    push_flag(out, g.installed);
    let r1 = write_string(out, g.details.app_type.as_str());
    if r1.is_err() {
        return Err(FormatError::TooLarge);
    }
    let r2 = write_string(out, g.details.name.as_str());
    if r2.is_err() {
        return Err(FormatError::TooLarge);
    }
    let r3 = write_string(out, g.details.header_image.as_str());
    if r3.is_err() {
        return Err(FormatError::TooLarge);
    }
    push_flag(out, g.details.is_free);
    let r4 = write_string(out, g.path.as_str());
    if r4.is_err() {
        return Err(FormatError::TooLarge);
    }
    let ghost before_reqs = out@;
    let r5 = write_requirements(out, &g.details.pc_requirements);
    if r5.is_err() {
        return Err(FormatError::TooLarge);
    }
    assert(before_reqs =~= o + le32(g.appid) + seq![flag_byte(g.installed)] + lp_string(
        g.details.app_type@,
    ) + lp_string(g.details.name@) + lp_string(g.details.header_image@) + seq![
        flag_byte(g.details.is_free),
    ] + lp_string(g.path@));
    assert(out@ =~= o + encode_entry(g@));
    Ok(())
}

impl GameMap {
    /// The bytes of the cache file that holds `games`, in their order.
    pub fn write_to(games: &[Game]) -> (r: Result<Vec<u8>, FormatError>)
        ensures
            r is Ok <==> encodable(games_view(games@)),
            r matches Ok(b) ==> b@ == encode_catalog(games_view(games@)),
            r is Err ==> r == Err::<Vec<u8>, FormatError>(FormatError::TooLarge),
    {
        let ghost c = games_view(games@);
        if games.len() > 0xffff_ffffusize {
            return Err(FormatError::TooLarge);
        }
        let mut out: Vec<u8> = Vec::new();
        push_u32(&mut out, games.len() as u32);
        let ghost start = out@;
        let mut i: usize = 0;
        while i < games.len()
            invariant
                i <= games@.len(),
                c == games_view(games@),
                fits_u32(games@.len() as int),
                start == le32(games@.len() as u32),
                forall|k: int| 0 <= k < i ==> entry_fits(#[trigger] c[k]),
                out@ == start + encode_entries(c.subrange(0, i as int)),
            decreases games@.len() - i,
        {
            assert(c[i as int] == games@[i as int]@);
            let w = write_entry(&mut out, &games[i]);
            if w.is_err() {
                assert(!entry_fits(c[i as int]));
                return Err(FormatError::TooLarge);
            }
            assert(c.subrange(0, i + 1).drop_last() =~= c.subrange(0, i as int));
            i = i + 1;
        }
        assert(c.subrange(0, i as int) =~= c);
        Ok(out)
    }
}


// ---------------------------------------------------------------------------
// Reading, as a parse of the bytes from a position: each step gives its value
// and the position after it, or the reason it failed.

pub open spec fn parse_u32(b: Seq<u8>, pos: int) -> Result<(u32, int), FormatError> {
    if 0 <= pos && pos + 4 <= b.len() {
        Ok((spec_u32_from_le_bytes(b.subrange(pos, pos + 4)), pos + 4))
    } else {
        Err(FormatError::UnexpectedEnd)
    }
}

/// A one-byte flag: any byte but 0 stands for `true`.
pub open spec fn parse_flag(b: Seq<u8>, pos: int) -> Result<(bool, int), FormatError> {
    if 0 <= pos && pos < b.len() {
        Ok((b[pos] != 0, pos + 1))
    } else {
        Err(FormatError::UnexpectedEnd)
    }
}

pub open spec fn parse_string(b: Seq<u8>, pos: int) -> Result<(Seq<char>, int), FormatError> {
    match parse_u32(b, pos) {
        Ok((n, p)) => {
            if p + n > b.len() {
                Err(FormatError::UnexpectedEnd)
            } else if !valid_utf8(b.subrange(p, p + n)) {
                Err(FormatError::InvalidUtf8)
            } else {
                Ok((decode_utf8(b.subrange(p, p + n)), p + n))
            }
        },
        Err(e) => Err(e),
    }
}

pub open spec fn parse_requirements(b: Seq<u8>, pos: int, count: nat) -> Result<
    (Seq<(Seq<char>, Seq<char>)>, int),
    FormatError,
>
    decreases count,
{
    if count == 0 {
        Ok((Seq::empty(), pos))
    } else {
        match parse_requirements(b, pos, (count - 1) as nat) {
            Ok((rs, p)) => match parse_string(b, p) {
                Ok((k, at1)) => match parse_string(b, at1) {
                    Ok((v, at2)) => Ok((rs.push((k, v)), at2)),
                    Err(e) => Err(e),
                },
                Err(e) => Err(e),
            },
            Err(e) => Err(e),
        }
    }
}

#[verifier::opaque]
pub open spec fn parse_entry(b: Seq<u8>, pos: int) -> Result<(GameView, int), FormatError> {
    match parse_u32(b, pos) {
        Err(e) => Err(e),
        Ok((appid, at0)) => match parse_flag(b, at0) {
            Err(e) => Err(e),
            Ok((installed, at1)) => match parse_string(b, at1) {
                Err(e) => Err(e),
                Ok((app_type, at2)) => match parse_string(b, at2) {
                    Err(e) => Err(e),
                    Ok((name, at3)) => match parse_string(b, at3) {
                        Err(e) => Err(e),
                        Ok((header_image, at4)) => match parse_flag(b, at4) {
                            Err(e) => Err(e),
                            Ok((is_free, at5)) => match parse_string(b, at5) {
                                Err(e) => Err(e),
                                Ok((path, at6)) => match parse_u32(b, at6) {
                                    Err(e) => Err(e),
                                    Ok((n, at7)) => match parse_requirements(b, at7, n as nat) {
                                        Err(e) => Err(e),
                                        Ok((requirements, at8)) => Ok(
                                            (
                                                GameView {
                                                    appid,
                                                    installed,
                                                    details: AppDataView {
                                                        app_type,
                                                        name,
                                                        is_free,
                                                        header_image,
                                                        requirements,
                                                    },
                                                    path,
                                                },
                                                at8,
                                            ),
                                        ),
                                    },
                                },
                            },
                        },
                    },
                },
            },
        },
    }
}

pub open spec fn parse_entries(b: Seq<u8>, pos: int, count: nat) -> Result<
    (Seq<GameView>, int),
    FormatError,
>
    decreases count,
{
    if count == 0 {
        Ok((Seq::empty(), pos))
    } else {
        match parse_entries(b, pos, (count - 1) as nat) {
            Ok((es, p)) => match parse_entry(b, p) {
                Ok((e, q)) => Ok((es.push(e), q)),
                Err(e) => Err(e),
            },
            Err(e) => Err(e),
        }
    }
}

/// The catalog that a file holds: the count, then that many entries. Bytes
/// after the last entry are not read.
pub open spec fn parse_catalog(b: Seq<u8>) -> Result<Seq<GameView>, FormatError> {
    match parse_u32(b, 0) {
        Ok((n, p)) => match parse_entries(b, p, n as nat) {
            Ok((c, _)) => Ok(c),
            Err(e) => Err(e),
        },
        Err(e) => Err(e),
    }
}

proof fn lemma_requirements_err_stays(b: Seq<u8>, pos: int, i: nat, count: nat)
    requires
        i <= count,
        parse_requirements(b, pos, i) is Err,
    ensures
        parse_requirements(b, pos, count) == parse_requirements(b, pos, i),
    decreases count,
{
    if count > i {
        lemma_requirements_err_stays(b, pos, i, (count - 1) as nat);
    }
}

proof fn lemma_entries_err_stays(b: Seq<u8>, pos: int, i: nat, count: nat)
    requires
        i <= count,
        parse_entries(b, pos, i) is Err,
    ensures
        parse_entries(b, pos, count) == parse_entries(b, pos, i),
    decreases count,
{
    if count > i {
        lemma_entries_err_stays(b, pos, i, (count - 1) as nat);
    }
}

/// Relies on `std::str::from_utf8`: it succeeds exactly on valid UTF-8, and
/// the `str` it returns is made of the bytes it was given.
#[verifier::external_body]
pub(crate) fn str_from_utf8(b: &[u8]) -> (r: Option<&str>)
    ensures
        r is Some <==> valid_utf8(b@),
        r matches Some(s) ==> s.spec_bytes() == b@,
{
    std::str::from_utf8(b).ok()
}

fn read_u32(b: &[u8], pos: usize) -> (r: Result<(u32, usize), FormatError>)
    ensures
        r matches Ok((v, p)) ==> parse_u32(b@, pos as int) == Ok::<(u32, int), FormatError>((v, p as int)),
        r matches Err(e) ==> parse_u32(b@, pos as int) == Err::<(u32, int), FormatError>(e),
{
    if pos > b.len() || b.len() - pos < 4 {
        return Err(FormatError::UnexpectedEnd);
    }
    let v = u32_from_le_bytes(vstd::slice::slice_subrange(b, pos, pos + 4));
    Ok((v, pos + 4))
}

fn read_flag(b: &[u8], pos: usize) -> (r: Result<(bool, usize), FormatError>)
    ensures
        r matches Ok((v, p)) ==> parse_flag(b@, pos as int) == Ok::<(bool, int), FormatError>((v, p as int)),
        r matches Err(e) ==> parse_flag(b@, pos as int) == Err::<(bool, int), FormatError>(e),
{
    if pos >= b.len() {
        return Err(FormatError::UnexpectedEnd);
    }
    Ok((b[pos] != 0, pos + 1))
}

/// Reads the length-prefixed string that starts at `pos`.
pub fn read_string(b: &[u8], pos: usize) -> (r: Result<(String, usize), FormatError>)
    ensures
        r matches Ok((s, p)) ==> parse_string(b@, pos as int) == Ok::<(Seq<char>, int), FormatError>((s@, p as int)),
        r matches Err(e) ==> parse_string(b@, pos as int) == Err::<(Seq<char>, int), FormatError>(e),
{
    let (n, p) = read_u32(b, pos)?;
    if b.len() - p < n as usize {
        return Err(FormatError::UnexpectedEnd);
    }
    let end = p + n as usize;
    let bytes = vstd::slice::slice_subrange(b, p, end);
    match str_from_utf8(bytes) {
        Some(s) => {
            proof {
                encode_utf8_decode_utf8(s@);
            }
            Ok((s.to_owned(), end))
        },
        None => Err(FormatError::InvalidUtf8),
    }
}

fn read_requirements(b: &[u8], pos: usize, count: u32) -> (r: Result<(Vec<Requirement>, usize), FormatError>)
    ensures
        r matches Ok((v, p)) ==> parse_requirements(b@, pos as int, count as nat) == Ok::<(Seq<(Seq<char>, Seq<char>)>, int), FormatError>((requirements_view(v@), p as int)),
        r matches Err(e) ==> parse_requirements(b@, pos as int, count as nat) == Err::<(Seq<(Seq<char>, Seq<char>)>, int), FormatError>(e),
{
    let mut v: Vec<Requirement> = Vec::new();
    let mut p = pos;
    let mut i: u32 = 0;
    assert(requirements_view(v@) =~= Seq::empty());
    while i < count
        invariant
            i <= count,
            parse_requirements(b@, pos as int, i as nat) == Ok::<(Seq<(Seq<char>, Seq<char>)>, int), FormatError>((requirements_view(v@), p as int)),
        decreases count - i,
    {
        let key = match read_string(b, p) {
            Ok((k, at1)) => {
                p = at1;
                k
            },
            Err(e) => {
                proof {
                    lemma_requirements_err_stays(b@, pos as int, (i + 1) as nat, count as nat);
                }
                return Err(e);
            },
        };
        let value = match read_string(b, p) {
            Ok((x, at2)) => {
                p = at2;
                x
            },
            Err(e) => {
                proof {
                    lemma_requirements_err_stays(b@, pos as int, (i + 1) as nat, count as nat);
                }
                return Err(e);
            },
        };
        let ghost old_v = v@;
        v.push((key, value));
        assert(requirements_view(v@) =~= requirements_view(old_v).push((key@, value@)));
        i = i + 1;
    }
    Ok((v, p))
}

fn read_entry(b: &[u8], pos: usize) -> (r: Result<(Game, usize), FormatError>)
    ensures
        r matches Ok((g, p)) ==> parse_entry(b@, pos as int) == Ok::<(GameView, int), FormatError>((g@, p as int)),
        r matches Err(e) ==> parse_entry(b@, pos as int) == Err::<(GameView, int), FormatError>(e),
{
    reveal(parse_entry);
    let (appid, at0) = read_u32(b, pos)?;
    let (installed, at1) = read_flag(b, at0)?;
    let (app_type, at2) = read_string(b, at1)?;
    let (name, at3) = read_string(b, at2)?;
    let (header_image, at4) = read_string(b, at3)?;
    let (is_free, at5) = read_flag(b, at4)?;
    let (path, at6) = read_string(b, at5)?;
    let (n, at7) = read_u32(b, at6)?;
    let (pc_requirements, at8) = read_requirements(b, at7, n)?;
    let g = Game {
        appid,
        details: AppData { app_type, name, is_free, header_image, pc_requirements },
        installed,
        path,
    };
    Ok((g, at8))
}

impl GameMap {
    /// The catalog that the bytes of a cache file hold, or why they hold none;
    /// nothing of a catalog that fails part way is returned.
    pub fn read_from(b: &[u8]) -> (r: Result<GameMap, FormatError>)
        ensures
            r matches Ok(m) ==> parse_catalog(b@) == Ok::<Seq<GameView>, FormatError>(m@),
            r matches Err(e) ==> parse_catalog(b@) == Err::<Seq<GameView>, FormatError>(e),
    {
        let (count, start) = read_u32(b, 0)?;
        let mut games: Vec<Game> = Vec::new();
        let mut p = start;
        let mut i: u32 = 0;
        assert(games_view(games@) =~= Seq::empty());
        while i < count
            invariant
                i <= count,
                parse_u32(b@, 0) == Ok::<(u32, int), FormatError>((count, start as int)),
                parse_entries(b@, start as int, i as nat) == Ok::<(Seq<GameView>, int), FormatError>((games_view(games@), p as int)),
            decreases count - i,
        {
            match read_entry(b, p) {
                Ok((g, q)) => {
                    let ghost old_games = games@;
                    games.push(g);
                    assert(games_view(games@) =~= games_view(old_games).push(g@));
                    p = q;
                },
                Err(e) => {
                    proof {
                        lemma_entries_err_stays(b@, start as int, (i + 1) as nat, count as nat);
                    }
                    return Err(e);
                },
            }
            i = i + 1;
        }
        Ok(GameMap(games))
    }
}

} // verus!
