//! Wire-level primitives of the AMQP 0-9-1 codec: big-endian integers,
//! length-prefixed strings, and packed bit octets.
//!
//! Each primitive has a specification-level encoder (`enc_*`), a
//! specification-level front-peeling parser (`p_*` returns the parsed value
//! and the remaining bytes, or `None` when too few bytes are present), a
//! round-trip lemma, and executable read/write counterparts proved against
//! the specification functions.

use vstd::prelude::*;

verus! {

// ---------------------------------------------------------------------------
// Specification-level encoders
// ---------------------------------------------------------------------------

pub open spec fn enc_u8(v: u8) -> Seq<u8> {
    seq![v]
}

pub open spec fn enc_u16(v: u16) -> Seq<u8> {
    seq![(v >> 8) as u8, v as u8]
}

pub open spec fn enc_u32(v: u32) -> Seq<u8> {
    seq![(v >> 24) as u8, (v >> 16) as u8, (v >> 8) as u8, v as u8]
}

pub open spec fn enc_u64(v: u64) -> Seq<u8> {
    seq![
        (v >> 56) as u8,
        (v >> 48) as u8,
        (v >> 40) as u8,
        (v >> 32) as u8,
        (v >> 24) as u8,
        (v >> 16) as u8,
        (v >> 8) as u8,
        v as u8,
    ]
}

/// A short string: one length octet followed by that many bytes.
pub open spec fn enc_shortstr(s: Seq<u8>) -> Seq<u8> {
    enc_u8(s.len() as u8) + s
}

/// A long string: a four-octet length followed by that many bytes.
pub open spec fn enc_longstr(s: Seq<u8>) -> Seq<u8> {
    enc_u32(s.len() as u32) + s
}

/// The octet holding up to eight packed bit arguments, least significant first.
pub open spec fn bits_byte(
    b0: bool, b1: bool, b2: bool, b3: bool, b4: bool, b5: bool, b6: bool, b7: bool,
) -> u8 {
    (if b0 { 1u8 } else { 0u8 }) | (if b1 { 2u8 } else { 0u8 }) | (if b2 { 4u8 } else { 0u8 })
        | (if b3 { 8u8 } else { 0u8 }) | (if b4 { 16u8 } else { 0u8 })
        | (if b5 { 32u8 } else { 0u8 }) | (if b6 { 64u8 } else { 0u8 })
        | (if b7 { 128u8 } else { 0u8 })
}

// ---------------------------------------------------------------------------
// Specification-level parsers (peel from the front)
// ---------------------------------------------------------------------------

pub open spec fn be_u16(b0: u8, b1: u8) -> u16 {
    ((b0 as u16) << 8) | (b1 as u16)
}

pub open spec fn be_u32(b0: u8, b1: u8, b2: u8, b3: u8) -> u32 {
    ((b0 as u32) << 24) | ((b1 as u32) << 16) | ((b2 as u32) << 8) | (b3 as u32)
}

pub open spec fn be_u64(b0: u8, b1: u8, b2: u8, b3: u8, b4: u8, b5: u8, b6: u8, b7: u8) -> u64 {
    ((b0 as u64) << 56) | ((b1 as u64) << 48) | ((b2 as u64) << 40) | ((b3 as u64) << 32)
        | ((b4 as u64) << 24) | ((b5 as u64) << 16) | ((b6 as u64) << 8) | (b7 as u64)
}

pub open spec fn p_u8(a: Seq<u8>) -> Option<(u8, Seq<u8>)> {
    if a.len() >= 1 {
        Some((a[0], a.skip(1)))
    } else {
        None
    }
}

pub open spec fn p_u16(a: Seq<u8>) -> Option<(u16, Seq<u8>)> {
    if a.len() >= 2 {
        Some((be_u16(a[0], a[1]), a.skip(2)))
    } else {
        None
    }
}

pub open spec fn p_u32(a: Seq<u8>) -> Option<(u32, Seq<u8>)> {
    if a.len() >= 4 {
        Some((be_u32(a[0], a[1], a[2], a[3]), a.skip(4)))
    } else {
        None
    }
}

pub open spec fn p_u64(a: Seq<u8>) -> Option<(u64, Seq<u8>)> {
    if a.len() >= 8 {
        Some((be_u64(a[0], a[1], a[2], a[3], a[4], a[5], a[6], a[7]), a.skip(8)))
    } else {
        None
    }
}

pub open spec fn p_take(a: Seq<u8>, n: nat) -> Option<(Seq<u8>, Seq<u8>)> {
    if a.len() >= n {
        Some((a.take(n as int), a.skip(n as int)))
    } else {
        None
    }
}

pub open spec fn p_shortstr(a: Seq<u8>) -> Option<(Seq<u8>, Seq<u8>)> {
    match p_u8(a) {
        Some((n, r)) => p_take(r, n as nat),
        None => None,
    }
}

pub open spec fn p_longstr(a: Seq<u8>) -> Option<(Seq<u8>, Seq<u8>)> {
    match p_u32(a) {
        Some((n, r)) => p_take(r, n as nat),
        None => None,
    }
}

// ---------------------------------------------------------------------------
// Round-trip lemmas
// ---------------------------------------------------------------------------

pub proof fn lemma_p_u8(v: u8, rest: Seq<u8>)
    ensures
        p_u8(enc_u8(v) + rest) == Some((v, rest)),
{
    let a = enc_u8(v) + rest;
    assert(a[0] == v);
    assert(a.skip(1) =~= rest);
}

pub proof fn lemma_p_u16(v: u16, rest: Seq<u8>)
    ensures
        p_u16(enc_u16(v) + rest) == Some((v, rest)),
{
    let a = enc_u16(v) + rest;
    assert(a[0] == (v >> 8) as u8);
    assert(a[1] == v as u8);
    assert(be_u16((v >> 8) as u8, v as u8) == v) by (bit_vector);
    assert(a.skip(2) =~= rest);
}

pub proof fn lemma_p_u32(v: u32, rest: Seq<u8>)
    ensures
        p_u32(enc_u32(v) + rest) == Some((v, rest)),
{
    let a = enc_u32(v) + rest;
    assert(a[0] == (v >> 24) as u8);
    assert(a[1] == (v >> 16) as u8);
    assert(a[2] == (v >> 8) as u8);
    assert(a[3] == v as u8);
    assert(be_u32((v >> 24) as u8, (v >> 16) as u8, (v >> 8) as u8, v as u8) == v)
        by (bit_vector);
    assert(a.skip(4) =~= rest);
}

pub proof fn lemma_p_u64(v: u64, rest: Seq<u8>)
    ensures
        p_u64(enc_u64(v) + rest) == Some((v, rest)),
{
    let a = enc_u64(v) + rest;
    assert(a[0] == (v >> 56) as u8);
    assert(a[1] == (v >> 48) as u8);
    assert(a[2] == (v >> 40) as u8);
    assert(a[3] == (v >> 32) as u8);
    assert(a[4] == (v >> 24) as u8);
    assert(a[5] == (v >> 16) as u8);
    assert(a[6] == (v >> 8) as u8);
    assert(a[7] == v as u8);
    assert(be_u64(
        (v >> 56) as u8, (v >> 48) as u8, (v >> 40) as u8, (v >> 32) as u8,
        (v >> 24) as u8, (v >> 16) as u8, (v >> 8) as u8, v as u8,
    ) == v) by (bit_vector);
    assert(a.skip(8) =~= rest);
}

pub proof fn lemma_be_u16_enc(v: u16)
    ensures
        be_u16((v >> 8) as u8, v as u8) == v,
{
    assert(be_u16((v >> 8) as u8, v as u8) == v) by (bit_vector);
}

pub proof fn lemma_be_u32_enc(v: u32)
    ensures
        be_u32((v >> 24) as u8, (v >> 16) as u8, (v >> 8) as u8, v as u8) == v,
{
    assert(be_u32((v >> 24) as u8, (v >> 16) as u8, (v >> 8) as u8, v as u8) == v)
        by (bit_vector);
}

pub proof fn lemma_p_take(s: Seq<u8>, rest: Seq<u8>)
    ensures
        p_take(s + rest, s.len()) == Some((s, rest)),
{
    let a = s + rest;
    assert(a.take(s.len() as int) =~= s);
    assert(a.skip(s.len() as int) =~= rest);
}

pub proof fn lemma_p_shortstr(s: Seq<u8>, rest: Seq<u8>)
    requires
        s.len() <= 255,
    ensures
        p_shortstr(enc_shortstr(s) + rest) == Some((s, rest)),
{
    let n = s.len() as u8;
    assert(enc_shortstr(s) + rest =~= enc_u8(n) + (s + rest));
    lemma_p_u8(n, s + rest);
    lemma_p_take(s, rest);
    assert(n as nat == s.len());
}

pub proof fn lemma_p_longstr(s: Seq<u8>, rest: Seq<u8>)
    requires
        s.len() < 0x1_0000_0000,
    ensures
        p_longstr(enc_longstr(s) + rest) == Some((s, rest)),
{
    let n = s.len() as u32;
    assert(enc_longstr(s) + rest =~= enc_u32(n) + (s + rest));
    lemma_p_u32(n, s + rest);
    lemma_p_take(s, rest);
    assert(n as nat == s.len());
}

/// Extraction of each packed bit, and the unused-high-bit masks that the
/// parsers check, for an octet built by `bits_byte`.
pub proof fn lemma_bits_byte(
    b0: bool, b1: bool, b2: bool, b3: bool, b4: bool, b5: bool, b6: bool, b7: bool,
)
    ensures
        ((bits_byte(b0, b1, b2, b3, b4, b5, b6, b7) & 1u8) != 0) == b0,
        ((bits_byte(b0, b1, b2, b3, b4, b5, b6, b7) & 2u8) != 0) == b1,
        ((bits_byte(b0, b1, b2, b3, b4, b5, b6, b7) & 4u8) != 0) == b2,
        ((bits_byte(b0, b1, b2, b3, b4, b5, b6, b7) & 8u8) != 0) == b3,
        ((bits_byte(b0, b1, b2, b3, b4, b5, b6, b7) & 16u8) != 0) == b4,
        ((bits_byte(b0, b1, b2, b3, b4, b5, b6, b7) & 32u8) != 0) == b5,
        ((bits_byte(b0, b1, b2, b3, b4, b5, b6, b7) & 64u8) != 0) == b6,
        ((bits_byte(b0, b1, b2, b3, b4, b5, b6, b7) & 128u8) != 0) == b7,
        !b1 && !b2 && !b3 && !b4 && !b5 && !b6 && !b7
            ==> bits_byte(b0, b1, b2, b3, b4, b5, b6, b7) & 0xFEu8 == 0,
        !b2 && !b3 && !b4 && !b5 && !b6 && !b7
            ==> bits_byte(b0, b1, b2, b3, b4, b5, b6, b7) & 0xFCu8 == 0,
        !b3 && !b4 && !b5 && !b6 && !b7
            ==> bits_byte(b0, b1, b2, b3, b4, b5, b6, b7) & 0xF8u8 == 0,
        !b4 && !b5 && !b6 && !b7
            ==> bits_byte(b0, b1, b2, b3, b4, b5, b6, b7) & 0xF0u8 == 0,
        !b5 && !b6 && !b7 ==> bits_byte(b0, b1, b2, b3, b4, b5, b6, b7) & 0xE0u8 == 0,
        !b0 && !b1 ==> bits_byte(b0, b1, b2, b3, b4, b5, b6, b7) & 3u8 == 0,
{
    let x0: u8 = if b0 { 1 } else { 0 };
    let x1: u8 = if b1 { 2 } else { 0 };
    let x2: u8 = if b2 { 4 } else { 0 };
    let x3: u8 = if b3 { 8 } else { 0 };
    let x4: u8 = if b4 { 16 } else { 0 };
    let x5: u8 = if b5 { 32 } else { 0 };
    let x6: u8 = if b6 { 64 } else { 0 };
    let x7: u8 = if b7 { 128 } else { 0 };
    let v = bits_byte(b0, b1, b2, b3, b4, b5, b6, b7);
    assert(v == (x0 | x1 | x2 | x3 | x4 | x5 | x6 | x7));
    assert((x0 == 0 || x0 == 1) && (x1 == 0 || x1 == 2) && (x2 == 0 || x2 == 4)
        && (x3 == 0 || x3 == 8) && (x4 == 0 || x4 == 16) && (x5 == 0 || x5 == 32)
        && (x6 == 0 || x6 == 64) && (x7 == 0 || x7 == 128) ==> ({
        &&& (((x0 | x1 | x2 | x3 | x4 | x5 | x6 | x7) & 1u8) != 0) == (x0 == 1)
        &&& (((x0 | x1 | x2 | x3 | x4 | x5 | x6 | x7) & 2u8) != 0) == (x1 == 2)
        &&& (((x0 | x1 | x2 | x3 | x4 | x5 | x6 | x7) & 4u8) != 0) == (x2 == 4)
        &&& (((x0 | x1 | x2 | x3 | x4 | x5 | x6 | x7) & 8u8) != 0) == (x3 == 8)
        &&& (((x0 | x1 | x2 | x3 | x4 | x5 | x6 | x7) & 16u8) != 0) == (x4 == 16)
        &&& (((x0 | x1 | x2 | x3 | x4 | x5 | x6 | x7) & 32u8) != 0) == (x5 == 32)
        &&& (((x0 | x1 | x2 | x3 | x4 | x5 | x6 | x7) & 64u8) != 0) == (x6 == 64)
        &&& (((x0 | x1 | x2 | x3 | x4 | x5 | x6 | x7) & 128u8) != 0) == (x7 == 128)
        &&& (x1 == 0 && x2 == 0 && x3 == 0 && x4 == 0 && x5 == 0 && x6 == 0 && x7 == 0
            ==> (x0 | x1 | x2 | x3 | x4 | x5 | x6 | x7) & 0xFEu8 == 0)
        &&& (x2 == 0 && x3 == 0 && x4 == 0 && x5 == 0 && x6 == 0 && x7 == 0
            ==> (x0 | x1 | x2 | x3 | x4 | x5 | x6 | x7) & 0xFCu8 == 0)
        &&& (x3 == 0 && x4 == 0 && x5 == 0 && x6 == 0 && x7 == 0
            ==> (x0 | x1 | x2 | x3 | x4 | x5 | x6 | x7) & 0xF8u8 == 0)
        &&& (x4 == 0 && x5 == 0 && x6 == 0 && x7 == 0
            ==> (x0 | x1 | x2 | x3 | x4 | x5 | x6 | x7) & 0xF0u8 == 0)
        &&& (x5 == 0 && x6 == 0 && x7 == 0
            ==> (x0 | x1 | x2 | x3 | x4 | x5 | x6 | x7) & 0xE0u8 == 0)
        &&& (x0 == 0 && x1 == 0 ==> (x0 | x1 | x2 | x3 | x4 | x5 | x6 | x7) & 3u8 == 0)
    })) by (bit_vector);
}

// ---------------------------------------------------------------------------
// Executable writers
// ---------------------------------------------------------------------------

pub fn w_u8(out: &mut Vec<u8>, v: u8)
    ensures
        final(out)@ == old(out)@ + enc_u8(v),
{
    out.push(v);
    assert(out@ =~= old(out)@ + enc_u8(v));
}

pub fn w_u16(out: &mut Vec<u8>, v: u16)
    ensures
        final(out)@ == old(out)@ + enc_u16(v),
{
    out.push((v >> 8) as u8);
    out.push(v as u8);
    assert(out@ =~= old(out)@ + enc_u16(v));
}

pub fn w_u32(out: &mut Vec<u8>, v: u32)
    ensures
        final(out)@ == old(out)@ + enc_u32(v),
{
    out.push((v >> 24) as u8);
    out.push((v >> 16) as u8);
    out.push((v >> 8) as u8);
    out.push(v as u8);
    assert(out@ =~= old(out)@ + enc_u32(v));
}

pub fn w_u64(out: &mut Vec<u8>, v: u64)
    ensures
        final(out)@ == old(out)@ + enc_u64(v),
{
    out.push((v >> 56) as u8);
    out.push((v >> 48) as u8);
    out.push((v >> 40) as u8);
    out.push((v >> 32) as u8);
    out.push((v >> 24) as u8);
    out.push((v >> 16) as u8);
    out.push((v >> 8) as u8);
    out.push(v as u8);
    assert(out@ =~= old(out)@ + enc_u64(v));
}

pub fn w_bytes(out: &mut Vec<u8>, s: &Vec<u8>)
    ensures
        final(out)@ == old(out)@ + s@,
{
    out.extend_from_slice(s.as_slice());
}

pub fn w_shortstr(out: &mut Vec<u8>, s: &Vec<u8>)
    requires
        s@.len() <= 255,
    ensures
        final(out)@ == old(out)@ + enc_shortstr(s@),
{
    out.push(s.len() as u8);
    out.extend_from_slice(s.as_slice());
    assert(out@ =~= old(out)@ + enc_shortstr(s@));
}

pub fn w_longstr(out: &mut Vec<u8>, s: &Vec<u8>)
    requires
        s@.len() < 0x1_0000_0000,
    ensures
        final(out)@ == old(out)@ + enc_longstr(s@),
{
    w_u32(out, s.len() as u32);
    out.extend_from_slice(s.as_slice());
    assert(out@ =~= old(out)@ + enc_longstr(s@));
}

// ---------------------------------------------------------------------------
// Executable readers
//
// A reader works on the window `buf[i..end]` and mirrors the peel parser on
// `buf@.subrange(i, end)`: on success the remaining bytes are exactly
// `buf@.subrange(j, end)` for the returned position `j`.
// ---------------------------------------------------------------------------

pub fn rd_u8(buf: &Vec<u8>, i: usize, end: usize) -> (r: Option<(u8, usize)>)
    requires
        i <= end,
        end <= buf@.len(),
    ensures
        match r {
            Some((v, j)) => {
                &&& j == i + 1
                &&& p_u8(buf@.subrange(i as int, end as int))
                    == Some((v, buf@.subrange(j as int, end as int)))
            },
            None => p_u8(buf@.subrange(i as int, end as int)) is None,
        },
{
    if i < end {
        let v = buf[i];
        proof {
            let w = buf@.subrange(i as int, end as int);
            assert(w[0] == v);
            assert(w.skip(1) =~= buf@.subrange(i as int + 1, end as int));
        }
        Some((v, i + 1))
    } else {
        None
    }
}

pub fn rd_u16(buf: &Vec<u8>, i: usize, end: usize) -> (r: Option<(u16, usize)>)
    requires
        i <= end,
        end <= buf@.len(),
    ensures
        match r {
            Some((v, j)) => {
                &&& j == i + 2
                &&& p_u16(buf@.subrange(i as int, end as int))
                    == Some((v, buf@.subrange(j as int, end as int)))
            },
            None => p_u16(buf@.subrange(i as int, end as int)) is None,
        },
{
    if end - i >= 2 {
        let v = ((buf[i] as u16) << 8) | (buf[i + 1] as u16);
        proof {
            let w = buf@.subrange(i as int, end as int);
            assert(w[0] == buf@[i as int]);
            assert(w[1] == buf@[i as int + 1]);
            assert(w.skip(2) =~= buf@.subrange(i as int + 2, end as int));
        }
        Some((v, i + 2))
    } else {
        None
    }
}

pub fn rd_u32(buf: &Vec<u8>, i: usize, end: usize) -> (r: Option<(u32, usize)>)
    requires
        i <= end,
        end <= buf@.len(),
    ensures
        match r {
            Some((v, j)) => {
                &&& j == i + 4
                &&& p_u32(buf@.subrange(i as int, end as int))
                    == Some((v, buf@.subrange(j as int, end as int)))
            },
            None => p_u32(buf@.subrange(i as int, end as int)) is None,
        },
{
    if end - i >= 4 {
        let v = ((buf[i] as u32) << 24) | ((buf[i + 1] as u32) << 16)
            | ((buf[i + 2] as u32) << 8) | (buf[i + 3] as u32);
        proof {
            let w = buf@.subrange(i as int, end as int);
            assert(w[0] == buf@[i as int]);
            assert(w[1] == buf@[i as int + 1]);
            assert(w[2] == buf@[i as int + 2]);
            assert(w[3] == buf@[i as int + 3]);
            assert(w.skip(4) =~= buf@.subrange(i as int + 4, end as int));
        }
        Some((v, i + 4))
    } else {
        None
    }
}

pub fn rd_u64(buf: &Vec<u8>, i: usize, end: usize) -> (r: Option<(u64, usize)>)
    requires
        i <= end,
        end <= buf@.len(),
    ensures
        match r {
            Some((v, j)) => {
                &&& j == i + 8
                &&& p_u64(buf@.subrange(i as int, end as int))
                    == Some((v, buf@.subrange(j as int, end as int)))
            },
            None => p_u64(buf@.subrange(i as int, end as int)) is None,
        },
{
    if end - i >= 8 {
        let v = ((buf[i] as u64) << 56) | ((buf[i + 1] as u64) << 48)
            | ((buf[i + 2] as u64) << 40) | ((buf[i + 3] as u64) << 32)
            | ((buf[i + 4] as u64) << 24) | ((buf[i + 5] as u64) << 16)
            | ((buf[i + 6] as u64) << 8) | (buf[i + 7] as u64);
        proof {
            let w = buf@.subrange(i as int, end as int);
            assert(w[0] == buf@[i as int]);
            assert(w[1] == buf@[i as int + 1]);
            assert(w[2] == buf@[i as int + 2]);
            assert(w[3] == buf@[i as int + 3]);
            assert(w[4] == buf@[i as int + 4]);
            assert(w[5] == buf@[i as int + 5]);
            assert(w[6] == buf@[i as int + 6]);
            assert(w[7] == buf@[i as int + 7]);
            assert(w.skip(8) =~= buf@.subrange(i as int + 8, end as int));
        }
        Some((v, i + 8))
    } else {
        None
    }
}

/// Copy `buf[a..b]` into a fresh vector.
pub fn copy_range(buf: &Vec<u8>, a: usize, b: usize) -> (out: Vec<u8>)
    requires
        a <= b,
        b <= buf@.len(),
    ensures
        out@ == buf@.subrange(a as int, b as int),
{
    let mut out: Vec<u8> = Vec::new();
    let mut i: usize = a;
    while i < b
        invariant
            a <= i <= b,
            b <= buf@.len(),
            out@ == buf@.subrange(a as int, i as int),
        decreases b - i,
    {
        out.push(buf[i]);
        i = i + 1;
        assert(out@ =~= buf@.subrange(a as int, i as int));
    }
    out
}

pub fn rd_take(buf: &Vec<u8>, i: usize, end: usize, n: usize) -> (r: Option<(Vec<u8>, usize)>)
    requires
        i <= end,
        end <= buf@.len(),
    ensures
        match r {
            Some((v, j)) => {
                &&& j == i + n
                &&& j <= end
                &&& match p_take(buf@.subrange(i as int, end as int), n as nat) {
                    Some((s, rest)) => v@ == s && rest == buf@.subrange(j as int, end as int),
                    None => false,
                }
            },
            None => p_take(buf@.subrange(i as int, end as int), n as nat) is None,
        },
{
    if end - i >= n {
        let v = copy_range(buf, i, i + n);
        proof {
            let w = buf@.subrange(i as int, end as int);
            assert(w.take(n as int) =~= buf@.subrange(i as int, i as int + n as int));
            assert(w.skip(n as int) =~= buf@.subrange(i as int + n as int, end as int));
        }
        Some((v, i + n))
    } else {
        None
    }
}

pub fn rd_shortstr(buf: &Vec<u8>, i: usize, end: usize) -> (r: Option<(Vec<u8>, usize)>)
    requires
        i <= end,
        end <= buf@.len(),
    ensures
        match r {
            Some((v, j)) => {
                &&& i < j <= end
                &&& v@.len() <= 255
                &&& match p_shortstr(buf@.subrange(i as int, end as int)) {
                    Some((s, rest)) => v@ == s && rest == buf@.subrange(j as int, end as int),
                    None => false,
                }
            },
            None => p_shortstr(buf@.subrange(i as int, end as int)) is None,
        },
{
    match rd_u8(buf, i, end) {
        Some((n, j)) => match rd_take(buf, j, end, n as usize) {
            Some((v, k)) => Some((v, k)),
            None => None,
        },
        None => None,
    }
}

pub fn rd_longstr(buf: &Vec<u8>, i: usize, end: usize) -> (r: Option<(Vec<u8>, usize)>)
    requires
        i <= end,
        end <= buf@.len(),
    ensures
        match r {
            Some((v, j)) => {
                &&& i < j <= end
                &&& v@.len() < 0x1_0000_0000
                &&& match p_longstr(buf@.subrange(i as int, end as int)) {
                    Some((s, rest)) => v@ == s && rest == buf@.subrange(j as int, end as int),
                    None => false,
                }
            },
            None => p_longstr(buf@.subrange(i as int, end as int)) is None,
        },
{
    match rd_u32(buf, i, end) {
        Some((n, j)) => {
            if n as u64 > (end - j) as u64 {
                proof {
                    let w = buf@.subrange(i as int, end as int);
                    assert(p_take(buf@.subrange(j as int, end as int), n as nat) is None);
                }
                None
            } else {
                match rd_take(buf, j, end, n as usize) {
                    Some((v, k)) => Some((v, k)),
                    None => None,
                }
            }
        },
        None => None,
    }
}

} // verus!
