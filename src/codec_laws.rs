//! What the catalog file format guarantees: a written catalog reads back as
//! itself, and a file cut short never reads as a catalog.

use vstd::prelude::*;
use vstd::bytes::{spec_u32_from_le_bytes, lemma_auto_spec_u32_to_from_le_bytes};
use vstd::utf8::{encode_utf8, decode_utf8, valid_utf8, encode_utf8_decode_utf8, encode_utf8_valid_utf8};
use crate::catalog::{AppDataView, GameView};
use crate::codec::{
    FormatError, encodable, encode_catalog, encode_entries, encode_entry, encode_requirements,
    entry_fits, flag_byte, le32, lp_string, parse_catalog, parse_entries, parse_entry, parse_flag,
    parse_requirements, parse_string, parse_u32, requirements_fit, string_fits,
};

verus! {

/// `x` stands in `b` from position `p` on.
pub open spec fn holds_at(b: Seq<u8>, p: int, x: Seq<u8>) -> bool {
    &&& 0 <= p
    &&& p + x.len() <= b.len()
    &&& b.subrange(p, p + x.len()) == x
}

proof fn lemma_holds_split(b: Seq<u8>, p: int, x: Seq<u8>, y: Seq<u8>)
    requires
        holds_at(b, p, x + y),
    ensures
        holds_at(b, p, x),
        holds_at(b, p + x.len(), y),
{
    let xy = x + y;
    assert forall|i: int| 0 <= i < x.len() implies b.subrange(p, p + x.len())[i] == x[i] by {
        assert(b.subrange(p, p + xy.len())[i] == xy[i]);
    }
    assert(b.subrange(p, p + x.len()) =~= x);
    assert forall|i: int| 0 <= i < y.len() implies b.subrange(p + x.len(), p + x.len() + y.len())[i]
        == y[i] by {
        assert(b.subrange(p, p + xy.len())[x.len() + i] == xy[x.len() + i]);
    }
    assert(b.subrange(p + x.len(), p + x.len() + y.len()) =~= y);
}

proof fn lemma_parse_u32_at(b: Seq<u8>, p: int, n: u32)
    requires
        holds_at(b, p, le32(n)),
    ensures
        le32(n).len() == 4,
        parse_u32(b, p) == Ok::<(u32, int), FormatError>((n, p + 4)),
{
    lemma_auto_spec_u32_to_from_le_bytes();
}

proof fn lemma_parse_flag_at(b: Seq<u8>, p: int, f: bool)
    requires
        holds_at(b, p, seq![flag_byte(f)]),
    ensures
        parse_flag(b, p) == Ok::<(bool, int), FormatError>((f, p + 1)),
{
    assert(b.subrange(p, p + 1)[0] == b[p]);
}

proof fn lemma_parse_string_at(b: Seq<u8>, p: int, s: Seq<char>)
    requires
        holds_at(b, p, lp_string(s)),
        string_fits(s),
    ensures
        parse_string(b, p) == Ok::<(Seq<char>, int), FormatError>((s, p + lp_string(s).len())),
{
    let e = encode_utf8(s);
    lemma_holds_split(b, p, le32(e.len() as u32), e);
    lemma_parse_u32_at(b, p, e.len() as u32);
    encode_utf8_valid_utf8(s);
    encode_utf8_decode_utf8(s);
}

proof fn lemma_parse_requirements_at(b: Seq<u8>, p: int, r: Seq<(Seq<char>, Seq<char>)>)
    requires
        holds_at(b, p, encode_requirements(r)),
        requirements_fit(r),
    ensures
        parse_requirements(b, p, r.len()) == Ok::<(Seq<(Seq<char>, Seq<char>)>, int), FormatError>(
            (r, p + encode_requirements(r).len()),
        ),
    decreases r.len(),
{
    if r.len() == 0 {
        assert(r =~= Seq::<(Seq<char>, Seq<char>)>::empty());
    } else {
        let r0 = r.drop_last();
        let (k, v) = r.last();
        let front = encode_requirements(r0);
        lemma_holds_split(b, p, front + lp_string(k), lp_string(v));
        lemma_holds_split(b, p, front, lp_string(k));
        assert forall|i: int| #![trigger r0[i]] 0 <= i < r0.len() implies string_fits(r0[i].0)
            && string_fits(r0[i].1) by {
            assert(r0[i] == r[i]);
        }
        assert(r[r.len() - 1] == r.last());
        lemma_parse_requirements_at(b, p, r0);
        lemma_parse_string_at(b, p + front.len(), k);
        lemma_parse_string_at(b, p + front.len() + lp_string(k).len(), v);
        assert(r0.push((k, v)) =~= r);
    }
}

proof fn lemma_parse_entry_at(b: Seq<u8>, p: int, g: GameView)
    requires
        holds_at(b, p, encode_entry(g)),
        entry_fits(g),
    ensures
        parse_entry(b, p) == Ok::<(GameView, int), FormatError>((g, p + encode_entry(g).len())),
{
    let d = g.details;
    let a0 = le32(g.appid);
    let a1 = seq![flag_byte(g.installed)];
    let a2 = lp_string(d.app_type);
    let a3 = lp_string(d.name);
    let a4 = lp_string(d.header_image);
    let a5 = seq![flag_byte(d.is_free)];
    let a6 = lp_string(g.path);
    let a7 = le32(d.requirements.len() as u32);
    let a8 = encode_requirements(d.requirements);
    let q1 = a0 + a1;
    let q2 = q1 + a2;
    let q3 = q2 + a3;
    let q4 = q3 + a4;
    let q5 = q4 + a5;
    let q6 = q5 + a6;
    let q7 = q6 + a7;
    assert(encode_entry(g) == q7 + a8);
    lemma_holds_split(b, p, q7, a8);
    lemma_holds_split(b, p, q6, a7);
    lemma_holds_split(b, p, q5, a6);
    lemma_holds_split(b, p, q4, a5);
    lemma_holds_split(b, p, q3, a4);
    lemma_holds_split(b, p, q2, a3);
    lemma_holds_split(b, p, q1, a2);
    lemma_holds_split(b, p, a0, a1);
    lemma_parse_u32_at(b, p, g.appid);
    lemma_parse_flag_at(b, p + q1.len() - 1, g.installed);
    lemma_parse_string_at(b, p + q1.len(), d.app_type);
    lemma_parse_string_at(b, p + q2.len(), d.name);
    lemma_parse_string_at(b, p + q3.len(), d.header_image);
    lemma_parse_flag_at(b, p + q4.len(), d.is_free);
    lemma_parse_string_at(b, p + q5.len(), g.path);
    lemma_parse_u32_at(b, p + q6.len(), d.requirements.len() as u32);
    lemma_parse_requirements_at(b, p + q7.len(), d.requirements);
    reveal(parse_entry);
}

proof fn lemma_parse_entries_at(b: Seq<u8>, p: int, c: Seq<GameView>)
    requires
        holds_at(b, p, encode_entries(c)),
        forall|i: int| 0 <= i < c.len() ==> entry_fits(#[trigger] c[i]),
    ensures
        parse_entries(b, p, c.len()) == Ok::<(Seq<GameView>, int), FormatError>(
            (c, p + encode_entries(c).len()),
        ),
    decreases c.len(),
{
    if c.len() == 0 {
        assert(c =~= Seq::<GameView>::empty());
    } else {
        let c0 = c.drop_last();
        let front = encode_entries(c0);
        lemma_holds_split(b, p, front, encode_entry(c.last()));
        assert forall|i: int| 0 <= i < c0.len() implies entry_fits(#[trigger] c0[i]) by {
            assert(c0[i] == c[i]);
        }
        assert(entry_fits(c[c.len() - 1]));
        lemma_parse_entries_at(b, p, c0);
        lemma_parse_entry_at(b, p + front.len(), c.last());
        assert(c0.push(c.last()) =~= c);
    }
}

proof fn lemma_parse_encoded_catalog(c: Seq<GameView>)
    requires
        encodable(c),
    ensures
        parse_u32(encode_catalog(c), 0) == Ok::<(u32, int), FormatError>((c.len() as u32, 4)),
        parse_entries(encode_catalog(c), 4, c.len()) == Ok::<(Seq<GameView>, int), FormatError>(
            (c, encode_catalog(c).len() as int),
        ),
{
    let b = encode_catalog(c);
    assert(b.subrange(0, b.len() as int) =~= b);
    lemma_holds_split(b, 0, le32(c.len() as u32), encode_entries(c));
    lemma_parse_u32_at(b, 0, c.len() as u32);
    lemma_parse_entries_at(b, 4, c);
}

/// A catalog whose counts and string lengths fit the format reads back, from
/// the bytes it is written to, as the same catalog: every entry, in order,
/// with multi-byte and empty strings as they were.
pub proof fn lemma_round_trip(c: Seq<GameView>)
    requires
        encodable(c),
    ensures
        parse_catalog(encode_catalog(c)) == Ok::<Seq<GameView>, FormatError>(c),
{
    lemma_parse_encoded_catalog(c);
}

/// How a parse of `b` from `p` goes on the first `k` bytes of `b`: where the
/// parse of `b` ends within them, the same; where it ends past them, it fails
/// for want of bytes.
pub open spec fn cut_agrees<T>(full: Result<(T, int), FormatError>, cut: Result<(T, int), FormatError>, p: int, k: int) -> bool {
    match full {
        Ok((_, q)) => p <= q && if q <= k {
            cut == full
        } else {
            cut == Err::<(T, int), FormatError>(FormatError::UnexpectedEnd)
        },
        Err(_) => true,
    }
}

proof fn lemma_cut_u32(b: Seq<u8>, k: int, p: int)
    requires
        0 <= k <= b.len(),
    ensures
        cut_agrees(parse_u32(b, p), parse_u32(b.subrange(0, k), p), p, k),
{
    if 0 <= p && p + 4 <= k {
        assert(b.subrange(0, k).subrange(p, p + 4) =~= b.subrange(p, p + 4));
    }
}

proof fn lemma_cut_flag(b: Seq<u8>, k: int, p: int)
    requires
        0 <= k <= b.len(),
    ensures
        cut_agrees(parse_flag(b, p), parse_flag(b.subrange(0, k), p), p, k),
{
}

proof fn lemma_cut_string(b: Seq<u8>, k: int, p: int)
    requires
        0 <= k <= b.len(),
    ensures
        cut_agrees(parse_string(b, p), parse_string(b.subrange(0, k), p), p, k),
{
    lemma_cut_u32(b, k, p);
    if let Ok((n, q)) = parse_u32(b, p) {
        if q <= k && q + n <= k {
            assert(b.subrange(0, k).subrange(q, q + n) =~= b.subrange(q, q + n));
        }
    }
}

proof fn lemma_cut_requirements(b: Seq<u8>, k: int, p: int, count: nat)
    requires
        0 <= p <= k <= b.len(),
    ensures
        cut_agrees(
            parse_requirements(b, p, count),
            parse_requirements(b.subrange(0, k), p, count),
            p,
            k,
        ),
    decreases count,
{
    if count > 0 {
        let t = b.subrange(0, k);
        lemma_cut_requirements(b, k, p, (count - 1) as nat);
        if let Ok((_, pp)) = parse_requirements(b, p, (count - 1) as nat) {
            lemma_cut_string(b, k, pp);
            if let Ok((_, at1)) = parse_string(b, pp) {
                lemma_cut_string(b, k, at1);
            }
        }
    }
}

proof fn lemma_cut_entry(b: Seq<u8>, k: int, p: int)
    requires
        0 <= p <= k <= b.len(),
    ensures
        cut_agrees(parse_entry(b, p), parse_entry(b.subrange(0, k), p), p, k),
{
    reveal(parse_entry);
    let t = b.subrange(0, k);
    lemma_cut_u32(b, k, p);
    if let Ok((_, at0)) = parse_u32(b, p) {
        lemma_cut_flag(b, k, at0);
        if let Ok((_, at1)) = parse_flag(b, at0) {
            lemma_cut_string(b, k, at1);
            if let Ok((_, at2)) = parse_string(b, at1) {
                lemma_cut_string(b, k, at2);
                if let Ok((_, at3)) = parse_string(b, at2) {
                    lemma_cut_string(b, k, at3);
                    if let Ok((_, at4)) = parse_string(b, at3) {
                        lemma_cut_flag(b, k, at4);
                        if let Ok((_, at5)) = parse_flag(b, at4) {
                            lemma_cut_string(b, k, at5);
                            if let Ok((_, at6)) = parse_string(b, at5) {
                                lemma_cut_u32(b, k, at6);
                                if let Ok((n, at7)) = parse_u32(b, at6) {
                                    if at7 <= k {
                                        lemma_cut_requirements(b, k, at7, n as nat);
                                    } else {
                                        lemma_requirements_advance(b, at7, n as nat);
                                    }
                                }
                            }
                        }
                    }
                }
            }
        }
    }
}

proof fn lemma_requirements_advance(b: Seq<u8>, p: int, count: nat)
    ensures
        parse_requirements(b, p, count) matches Ok((_, q)) ==> p <= q,
    decreases count,
{
    if count > 0 {
        lemma_requirements_advance(b, p, (count - 1) as nat);
    }
}

proof fn lemma_cut_entries(b: Seq<u8>, k: int, p: int, count: nat)
    requires
        0 <= p <= k <= b.len(),
    ensures
        cut_agrees(parse_entries(b, p, count), parse_entries(b.subrange(0, k), p, count), p, k),
    decreases count,
{
    if count > 0 {
        lemma_cut_entries(b, k, p, (count - 1) as nat);
        if let Ok((_, pp)) = parse_entries(b, p, (count - 1) as nat) {
            if pp <= k {
                lemma_cut_entry(b, k, pp);
            } else {
                lemma_entry_advance(b, pp);
            }
        }
    }
}

proof fn lemma_entry_advance(b: Seq<u8>, p: int)
    ensures
        parse_entry(b, p) matches Ok((_, q)) ==> p <= q,
{
    reveal(parse_entry);
    if let Ok((_, at0)) = parse_u32(b, p) {
        if let Ok((_, at1)) = parse_flag(b, at0) {
            if let Ok((_, at2)) = parse_string(b, at1) {
                if let Ok((_, at3)) = parse_string(b, at2) {
                    if let Ok((_, at4)) = parse_string(b, at3) {
                        if let Ok((_, at5)) = parse_flag(b, at4) {
                            if let Ok((_, at6)) = parse_string(b, at5) {
                                if let Ok((n, at7)) = parse_u32(b, at6) {
                                    lemma_requirements_advance(b, at7, n as nat);
                                }
                            }
                        }
                    }
                }
            }
        }
    }
}

/// The bytes of a catalog cut short anywhere before their end do not read as
/// a catalog: the read fails for want of bytes and yields no part of one.
pub proof fn lemma_truncated_fails(c: Seq<GameView>, k: int)
    requires
        encodable(c),
        0 <= k < encode_catalog(c).len(),
    ensures
        parse_catalog(encode_catalog(c).subrange(0, k)) == Err::<Seq<GameView>, FormatError>(
            FormatError::UnexpectedEnd,
        ),
{
    let b = encode_catalog(c);
    lemma_parse_encoded_catalog(c);
    lemma_cut_u32(b, k, 0);
    if 4 <= k {
        lemma_cut_entries(b, k, 4, c.len());
    }
}

} // verus!
