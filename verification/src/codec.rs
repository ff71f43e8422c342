//! The binary form in which certificate attributes are stored with the NFT: the
//! fields in declaration order, integers big-endian at full width, byte strings with
//! a 4-byte big-endian length, optional fields behind a 0/1 tag, the achievement type
//! as one byte, and the content hash as its 32 raw bytes; nothing may follow.

use vstd::prelude::*;

verus! {

// ───── integers ─────

pub open spec fn be16(b0: u8, b1: u8) -> u16 {
    ((b0 as u16) << 8u16) | (b1 as u16)
}

pub open spec fn be32(b0: u8, b1: u8, b2: u8, b3: u8) -> u32 {
    ((b0 as u32) << 24u32) | ((b1 as u32) << 16u32) | ((b2 as u32) << 8u32) | (b3 as u32)
}

pub open spec fn be64(b0: u8, b1: u8, b2: u8, b3: u8, b4: u8, b5: u8, b6: u8, b7: u8) -> u64 {
    ((b0 as u64) << 56u64) | ((b1 as u64) << 48u64) | ((b2 as u64) << 40u64) | ((b3 as u64)
        << 32u64) | ((b4 as u64) << 24u64) | ((b5 as u64) << 16u64) | ((b6 as u64) << 8u64) | (b7 as u64)
}

pub open spec fn enc_u8(x: u8) -> Seq<u8> {
    seq![x]
}

pub open spec fn enc_u16(x: u16) -> Seq<u8> {
    seq![(x >> 8u16) as u8, x as u8]
}

pub open spec fn enc_u32(x: u32) -> Seq<u8> {
    seq![(x >> 24u32) as u8, (x >> 16u32) as u8, (x >> 8u32) as u8, x as u8]
}

pub open spec fn enc_u64(x: u64) -> Seq<u8> {
    seq![
        (x >> 56u64) as u8,
        (x >> 48u64) as u8,
        (x >> 40u64) as u8,
        (x >> 32u64) as u8,
        (x >> 24u64) as u8,
        (x >> 16u64) as u8,
        (x >> 8u64) as u8,
        x as u8,
    ]
}

proof fn lemma_u16_bits(x: u16, b0: u8, b1: u8)
    ensures
        be16((x >> 8u16) as u8, x as u8) == x,
        ((be16(b0, b1) >> 8u16) as u8) == b0,
        (be16(b0, b1) as u8) == b1,
{
    assert(((((x >> 8u16) as u8) as u16) << 8u16) | (((x as u8) as u16)) == x) by (bit_vector);
    assert((((((b0 as u16) << 8u16) | (b1 as u16)) >> 8u16) as u8) == b0) by (bit_vector);
    assert(((((b0 as u16) << 8u16) | (b1 as u16)) as u8) == b1) by (bit_vector);
}

proof fn lemma_u32_bits(x: u32, b0: u8, b1: u8, b2: u8, b3: u8)
    ensures
        be32((x >> 24u32) as u8, (x >> 16u32) as u8, (x >> 8u32) as u8, x as u8) == x,
        ((be32(b0, b1, b2, b3) >> 24u32) as u8) == b0,
        ((be32(b0, b1, b2, b3) >> 16u32) as u8) == b1,
        ((be32(b0, b1, b2, b3) >> 8u32) as u8) == b2,
        (be32(b0, b1, b2, b3) as u8) == b3,
{
    assert(((((x >> 24u32) as u8) as u32) << 24u32) | ((((x >> 16u32) as u8) as u32) << 16u32)
        | ((((x >> 8u32) as u8) as u32) << 8u32) | (((x as u8) as u32)) == x) by (bit_vector);
    let y = be32(b0, b1, b2, b3);
    assert(y == ((b0 as u32) << 24u32) | ((b1 as u32) << 16u32) | ((b2 as u32) << 8u32) | (
    b3 as u32));
    assert(y == ((b0 as u32) << 24u32) | ((b1 as u32) << 16u32) | ((b2 as u32) << 8u32) | (
    b3 as u32) ==> ((y >> 24u32) as u8) == b0 && ((y >> 16u32) as u8) == b1 && ((y >> 8u32) as u8)
        == b2 && (y as u8) == b3) by (bit_vector);
}

proof fn lemma_u64_bits(x: u64, b0: u8, b1: u8, b2: u8, b3: u8, b4: u8, b5: u8, b6: u8, b7: u8)
    ensures
        be64(
            (x >> 56u64) as u8,
            (x >> 48u64) as u8,
            (x >> 40u64) as u8,
            (x >> 32u64) as u8,
            (x >> 24u64) as u8,
            (x >> 16u64) as u8,
            (x >> 8u64) as u8,
            x as u8,
        ) == x,
        enc_u64(be64(b0, b1, b2, b3, b4, b5, b6, b7)) == seq![b0, b1, b2, b3, b4, b5, b6, b7],
{
    assert(((((x >> 56u64) as u8) as u64) << 56u64) | ((((x >> 48u64) as u8) as u64) << 48u64)
        | ((((x >> 40u64) as u8) as u64) << 40u64) | ((((x >> 32u64) as u8) as u64) << 32u64) | ((((x
        >> 24u64) as u8) as u64) << 24u64) | ((((x >> 16u64) as u8) as u64) << 16u64) | ((((x
        >> 8u64) as u8) as u64) << 8u64) | (((x as u8) as u64)) == x) by (bit_vector);
    let y = be64(b0, b1, b2, b3, b4, b5, b6, b7);
    assert(y == ((b0 as u64) << 56u64) | ((b1 as u64) << 48u64) | ((b2 as u64) << 40u64) | ((
    b3 as u64) << 32u64) | ((b4 as u64) << 24u64) | ((b5 as u64) << 16u64) | ((b6 as u64)
        << 8u64) | (b7 as u64) ==> ((y >> 56u64) as u8) == b0 && ((y >> 48u64) as u8) == b1 && ((y
        >> 40u64) as u8) == b2 && ((y >> 32u64) as u8) == b3 && ((y >> 24u64) as u8) == b4 && ((y
        >> 16u64) as u8) == b5 && ((y >> 8u64) as u8) == b6 && (y as u8) == b7) by (bit_vector);
    assert(enc_u64(y) =~= seq![b0, b1, b2, b3, b4, b5, b6, b7]);
}

// ───── field parsers over the remaining input ─────

pub open spec fn p_u8(d: Seq<u8>) -> Option<(u8, Seq<u8>)> {
    if d.len() >= 1 {
        Some((d[0], d.skip(1)))
    } else {
        None
    }
}

pub open spec fn p_u16(d: Seq<u8>) -> Option<(u16, Seq<u8>)> {
    if d.len() >= 2 {
        Some((be16(d[0], d[1]), d.skip(2)))
    } else {
        None
    }
}

pub open spec fn p_u32(d: Seq<u8>) -> Option<(u32, Seq<u8>)> {
    if d.len() >= 4 {
        Some((be32(d[0], d[1], d[2], d[3]), d.skip(4)))
    } else {
        None
    }
}

pub open spec fn p_u64(d: Seq<u8>) -> Option<(u64, Seq<u8>)> {
    if d.len() >= 8 {
        Some((be64(d[0], d[1], d[2], d[3], d[4], d[5], d[6], d[7]), d.skip(8)))
    } else {
        None
    }
}

pub open spec fn p_buf(d: Seq<u8>) -> Option<(Seq<u8>, Seq<u8>)> {
    match p_u32(d) {
        Some((n, r)) => if r.len() >= n {
            Some((r.take(n as int), r.skip(n as int)))
        } else {
            None
        },
        None => None,
    }
}

pub open spec fn enc_buf(b: Seq<u8>) -> Seq<u8> {
    enc_u32(b.len() as u32) + b
}

pub open spec fn p_h32(d: Seq<u8>) -> Option<(Seq<u8>, Seq<u8>)> {
    if d.len() >= 32 {
        Some((d.take(32), d.skip(32)))
    } else {
        None
    }
}

pub proof fn lemma_u8_round(x: u8, rest: Seq<u8>)
    ensures
        p_u8(enc_u8(x) + rest) == Some((x, rest)),
{
    assert((enc_u8(x) + rest).skip(1) =~= rest);
}

pub proof fn lemma_u8_sound(d: Seq<u8>)
    ensures
        p_u8(d) matches Some((x, r)) ==> d == enc_u8(x) + r,
{
    if d.len() >= 1 {
        assert(d =~= enc_u8(d[0]) + d.skip(1));
    }
}

pub proof fn lemma_u16_round(x: u16, rest: Seq<u8>)
    ensures
        p_u16(enc_u16(x) + rest) == Some((x, rest)),
{
    lemma_u16_bits(x, 0, 0);
    assert((enc_u16(x) + rest).skip(2) =~= rest);
}

pub proof fn lemma_u16_sound(d: Seq<u8>)
    ensures
        p_u16(d) matches Some((x, r)) ==> d == enc_u16(x) + r,
{
    if d.len() >= 2 {
        lemma_u16_bits(0, d[0], d[1]);
        assert(d =~= enc_u16(be16(d[0], d[1])) + d.skip(2));
    }
}

pub proof fn lemma_u32_round(x: u32, rest: Seq<u8>)
    ensures
        p_u32(enc_u32(x) + rest) == Some((x, rest)),
{
    lemma_u32_bits(x, 0, 0, 0, 0);
    assert((enc_u32(x) + rest).skip(4) =~= rest);
}

pub proof fn lemma_u32_sound(d: Seq<u8>)
    ensures
        p_u32(d) matches Some((x, r)) ==> d == enc_u32(x) + r,
{
    if d.len() >= 4 {
        lemma_u32_bits(0, d[0], d[1], d[2], d[3]);
        assert(d =~= enc_u32(be32(d[0], d[1], d[2], d[3])) + d.skip(4));
    }
}

pub proof fn lemma_u64_round(x: u64, rest: Seq<u8>)
    ensures
        p_u64(enc_u64(x) + rest) == Some((x, rest)),
{
    lemma_u64_bits(x, 0, 0, 0, 0, 0, 0, 0, 0);
    assert((enc_u64(x) + rest).skip(8) =~= rest);
}

pub proof fn lemma_u64_sound(d: Seq<u8>)
    ensures
        p_u64(d) matches Some((x, r)) ==> d == enc_u64(x) + r,
{
    if d.len() >= 8 {
        lemma_u64_bits(0, d[0], d[1], d[2], d[3], d[4], d[5], d[6], d[7]);
        assert(d =~= seq![d[0], d[1], d[2], d[3], d[4], d[5], d[6], d[7]] + d.skip(8));
    }
}

pub proof fn lemma_buf_round(b: Seq<u8>, rest: Seq<u8>)
    requires
        b.len() <= u32::MAX,
    ensures
        p_buf(enc_buf(b) + rest) == Some((b, rest)),
{
    let n = b.len() as u32;
    lemma_u32_round(n, b + rest);
    assert(enc_buf(b) + rest =~= enc_u32(n) + (b + rest));
    assert((b + rest).take(n as int) =~= b);
    assert((b + rest).skip(n as int) =~= rest);
}

pub proof fn lemma_buf_sound(d: Seq<u8>)
    ensures
        p_buf(d) matches Some((b, r)) ==> d == enc_buf(b) + r && b.len() <= u32::MAX,
{
    lemma_u32_sound(d);
    if let Some((n, r)) = p_u32(d) {
        if r.len() >= n {
            let b = r.take(n as int);
            assert(b.len() as u32 == n);
            assert(r =~= b + r.skip(n as int));
            assert(d =~= enc_buf(b) + r.skip(n as int));
        }
    }
}

pub proof fn lemma_h32_round(h: Seq<u8>, rest: Seq<u8>)
    requires
        h.len() == 32,
    ensures
        p_h32(h + rest) == Some((h, rest)),
{
    assert((h + rest).take(32) =~= h);
    assert((h + rest).skip(32) =~= rest);
}

pub proof fn lemma_h32_sound(d: Seq<u8>)
    ensures
        p_h32(d) matches Some((h, r)) ==> d == h + r && h.len() == 32,
{
    if d.len() >= 32 {
        assert(d =~= d.take(32) + d.skip(32));
    }
}

// ───── run-time reading and writing ─────

proof fn lemma_skip_skip(d: Seq<u8>, a: int, b: int)
    requires
        0 <= a,
        0 <= b,
        a + b <= d.len(),
    ensures
        d.skip(a).skip(b) == d.skip(a + b),
{
    assert(d.skip(a).skip(b) =~= d.skip(a + b));
}

/// Reads one byte at `pos`.
pub fn read_u8(data: &[u8], pos: usize) -> (r: Option<(u8, usize)>)
    requires
        pos <= data@.len(),
    ensures
        r is None <==> p_u8(data@.skip(pos as int)) is None,
        r matches Some((v, p)) ==> pos <= p <= data@.len() && p_u8(data@.skip(pos as int))
            == Some((v, data@.skip(p as int))),
{
    if data.len() - pos >= 1 {
        proof {
            lemma_skip_skip(data@, pos as int, 1);
        }
        Some((data[pos], pos + 1))
    } else {
        None
    }
}

/// Reads a big-endian `u16` at `pos`.
pub fn read_u16(data: &[u8], pos: usize) -> (r: Option<(u16, usize)>)
    requires
        pos <= data@.len(),
    ensures
        r is None <==> p_u16(data@.skip(pos as int)) is None,
        r matches Some((v, p)) ==> pos <= p <= data@.len() && p_u16(data@.skip(pos as int))
            == Some((v, data@.skip(p as int))),
{
    if data.len() - pos >= 2 {
        proof {
            lemma_skip_skip(data@, pos as int, 2);
        }
        let v = ((data[pos] as u16) << 8u16) | (data[pos + 1] as u16);
        Some((v, pos + 2))
    } else {
        None
    }
}

/// Reads a big-endian `u32` at `pos`.
pub fn read_u32(data: &[u8], pos: usize) -> (r: Option<(u32, usize)>)
    requires
        pos <= data@.len(),
    ensures
        r is None <==> p_u32(data@.skip(pos as int)) is None,
        r matches Some((v, p)) ==> pos <= p <= data@.len() && p_u32(data@.skip(pos as int))
            == Some((v, data@.skip(p as int))),
{
    if data.len() - pos >= 4 {
        proof {
            lemma_skip_skip(data@, pos as int, 4);
        }
        let v = ((data[pos] as u32) << 24u32) | ((data[pos + 1] as u32) << 16u32) | ((data[pos
            + 2] as u32) << 8u32) | (data[pos + 3] as u32);
        Some((v, pos + 4))
    } else {
        None
    }
}

/// Reads a big-endian `u64` at `pos`.
pub fn read_u64(data: &[u8], pos: usize) -> (r: Option<(u64, usize)>)
    requires
        pos <= data@.len(),
    ensures
        r is None <==> p_u64(data@.skip(pos as int)) is None,
        r matches Some((v, p)) ==> pos <= p <= data@.len() && p_u64(data@.skip(pos as int))
            == Some((v, data@.skip(p as int))),
{
    if data.len() - pos >= 8 {
        proof {
            lemma_skip_skip(data@, pos as int, 8);
        }
        let v = ((data[pos] as u64) << 56u64) | ((data[pos + 1] as u64) << 48u64) | ((data[pos
            + 2] as u64) << 40u64) | ((data[pos + 3] as u64) << 32u64) | ((data[pos + 4] as u64)
            << 24u64) | ((data[pos + 5] as u64) << 16u64) | ((data[pos + 6] as u64) << 8u64) | (
        data[pos + 7] as u64);
        Some((v, pos + 8))
    } else {
        None
    }
}

/// Reads a length-prefixed byte string at `pos`.
pub fn read_buf(data: &[u8], pos: usize) -> (r: Option<(Vec<u8>, usize)>)
    requires
        pos <= data@.len(),
    ensures
        r is None <==> p_buf(data@.skip(pos as int)) is None,
        r matches Some((v, p)) ==> pos <= p <= data@.len() && p_buf(data@.skip(pos as int))
            == Some((v@, data@.skip(p as int))),
{
    let (n, p) = match read_u32(data, pos) {
        Some(x) => x,
        None => {
            return None;
        },
    };
    let n = n as usize;
    let len = data.len();
    if len - p < n {
        return None;
    }
    let mut out: Vec<u8> = Vec::new();
    let mut i: usize = 0;
    while i < n
        invariant
            p + n <= len,
            len == data@.len(),
            i <= n,
            out@ == data@.subrange(p as int, p + i),
        decreases n - i,
    {
        out.push(data[p + i]);
        i = i + 1;
        assert(out@ =~= data@.subrange(p as int, p + i));
    }
    proof {
        assert(data@.skip(p as int).take(n as int) =~= out@);
        lemma_skip_skip(data@, p as int, n as int);
    }
    Some((out, p + n))
}

/// Reads 32 raw bytes at `pos`.
pub fn read_h32(data: &[u8], pos: usize) -> (r: Option<([u8; 32], usize)>)
    requires
        pos <= data@.len(),
    ensures
        r is None <==> p_h32(data@.skip(pos as int)) is None,
        r matches Some((v, p)) ==> pos <= p <= data@.len() && p_h32(data@.skip(pos as int))
            == Some((v@, data@.skip(p as int))),
{
    let len = data.len();
    if len - pos < 32 {
        return None;
    }
    let mut out: [u8; 32] = [0u8; 32];
    let mut i: usize = 0;
    while i < 32
        invariant
            pos + 32 <= len,
            len == data@.len(),
            i <= 32,
            forall|j: int| 0 <= j < i ==> out@[j] == data@[pos + j],
        decreases 32 - i,
    {
        out[i] = data[pos + i];
        i = i + 1;
    }
    proof {
        assert(data@.skip(pos as int).take(32) =~= out@);
        lemma_skip_skip(data@, pos as int, 32);
    }
    Some((out, pos + 32))
}

pub fn push_u8(out: &mut Vec<u8>, x: u8)
    ensures
        final(out)@ == old(out)@ + enc_u8(x),
{
    out.push(x);
    assert(out@ =~= old(out)@ + enc_u8(x));
}

pub fn push_u16(out: &mut Vec<u8>, x: u16)
    ensures
        final(out)@ == old(out)@ + enc_u16(x),
{
    out.push((x >> 8u16) as u8);
    out.push(x as u8);
    assert(out@ =~= old(out)@ + enc_u16(x));
}

pub fn push_u32(out: &mut Vec<u8>, x: u32)
    ensures
        final(out)@ == old(out)@ + enc_u32(x),
{
    out.push((x >> 24u32) as u8);
    out.push((x >> 16u32) as u8);
    out.push((x >> 8u32) as u8);
    out.push(x as u8);
    assert(out@ =~= old(out)@ + enc_u32(x));
}

pub fn push_u64(out: &mut Vec<u8>, x: u64)
    ensures
        final(out)@ == old(out)@ + enc_u64(x),
{
    out.push((x >> 56u64) as u8);
    out.push((x >> 48u64) as u8);
    out.push((x >> 40u64) as u8);
    out.push((x >> 32u64) as u8);
    out.push((x >> 24u64) as u8);
    out.push((x >> 16u64) as u8);
    out.push((x >> 8u64) as u8);
    out.push(x as u8);
    assert(out@ =~= old(out)@ + enc_u64(x));
}

/// Appends raw bytes.
pub fn push_raw(out: &mut Vec<u8>, b: &[u8])
    ensures
        final(out)@ == old(out)@ + b@,
{
    let mut i: usize = 0;
    while i < b.len()
        invariant
            i <= b@.len(),
            out@ == old(out)@ + b@.subrange(0, i as int),
        decreases b@.len() - i,
    {
        out.push(b[i]);
        i = i + 1;
        assert(out@ =~= old(out)@ + b@.subrange(0, i as int));
    }
    assert(b@.subrange(0, b@.len() as int) =~= b@);
}

/// Appends a length-prefixed byte string.
pub fn push_buf(out: &mut Vec<u8>, b: &[u8])
    requires
        b@.len() <= u32::MAX,
    ensures
        final(out)@ == old(out)@ + enc_buf(b@),
{
    push_u32(out, b.len() as u32);
    push_raw(out, b);
    assert(out@ =~= old(out)@ + enc_buf(b@));
}

} // verus!
