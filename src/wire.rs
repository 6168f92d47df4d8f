//! The length-prefixed binary encoding shared by both protocols:
//! big-endian `u32` integers, booleans and characters as `u32`, single
//! bytes as themselves, and strings as a `u32` length followed by the bytes.
use vstd::prelude::*;

use crate::non_zero_bytes::{no_nul, remove_nul_bytes, strip_nul};

verus! {

/// Why a byte string could not be encoded or decoded.
#[derive(Debug, Clone, Copy, PartialEq, Eq)]
pub enum FormatError {
    /// The input ended before the value did.
    Eof,
    /// A length does not fit in a `u32`.
    TooLong,
    /// A boolean was neither 0 nor 1.
    InvalidBoolEncoding,
    /// The packet type is not one this library knows.
    UnknownPacketType,
}

/// The four big-endian bytes of `x`.
pub open spec fn u32_be(x: u32) -> Seq<u8> {
    seq![(x >> 24u32) as u8, (x >> 16u32) as u8, (x >> 8u32) as u8, x as u8]
}

/// The `u32` whose big-endian bytes are `b0 b1 b2 b3`.
pub open spec fn u32_of_be(b0: u8, b1: u8, b2: u8, b3: u8) -> u32 {
    ((b0 as u32) << 24u32) | ((b1 as u32) << 16u32) | ((b2 as u32) << 8u32) | (b3 as u32)
}

/// A string: its length, then its bytes.
pub open spec fn enc_bytes(b: Seq<u8>) -> Seq<u8> {
    u32_be(b.len() as u32) + b
}

/// A text field: NUL bytes are dropped before it is written as a string.
pub open spec fn enc_str(b: Seq<u8>) -> Seq<u8> {
    enc_bytes(strip_nul(b))
}

pub open spec fn enc_bool(b: bool) -> Seq<u8> {
    u32_be(if b { 1u32 } else { 0u32 })
}

/// Reads a `u32` at `pos`; gives the value and the position after it.
pub open spec fn take_u32(s: Seq<u8>, pos: int) -> Option<(u32, int)> {
    if 0 <= pos && pos + 4 <= s.len() {
        Some((u32_of_be(s[pos], s[pos + 1], s[pos + 2], s[pos + 3]), pos + 4))
    } else {
        None
    }
}

pub open spec fn take_u8(s: Seq<u8>, pos: int) -> Option<(u8, int)> {
    if 0 <= pos && pos + 1 <= s.len() {
        Some((s[pos], pos + 1))
    } else {
        None
    }
}

pub open spec fn take_bool(s: Seq<u8>, pos: int) -> Option<(bool, int)> {
    match take_u32(s, pos) {
        Some((v, p)) => if v == 0 {
            Some((false, p))
        } else if v == 1 {
            Some((true, p))
        } else {
            None
        },
        None => None,
    }
}

/// Reads a string at `pos`.
pub open spec fn take_bytes(s: Seq<u8>, pos: int) -> Option<(Seq<u8>, int)> {
    match take_u32(s, pos) {
        Some((n, p)) => if p + n <= s.len() {
            Some((s.subrange(p, p + n), p + n))
        } else {
            None
        },
        None => None,
    }
}

pub proof fn lemma_u32_round_trip(x: u32)
    ensures
        u32_of_be((x >> 24u32) as u8, (x >> 16u32) as u8, (x >> 8u32) as u8, x as u8) == x,
{
    assert(((((x >> 24u32) as u8) as u32) << 24u32) | ((((x >> 16u32) as u8) as u32) << 16u32)
        | ((((x >> 8u32) as u8) as u32) << 8u32) | ((x as u8) as u32) == x) by (bit_vector);
}

/// A `u32` written at `pos` reads back.
pub proof fn lemma_take_u32(s: Seq<u8>, pos: int, x: u32)
    requires
        0 <= pos,
        pos + 4 <= s.len(),
        s.subrange(pos, pos + 4) == u32_be(x),
    ensures
        take_u32(s, pos) == Some((x, pos + 4)),
{
    assert(s[pos] == s.subrange(pos, pos + 4)[0]);
    assert(s[pos + 1] == s.subrange(pos, pos + 4)[1]);
    assert(s[pos + 2] == s.subrange(pos, pos + 4)[2]);
    assert(s[pos + 3] == s.subrange(pos, pos + 4)[3]);
    lemma_u32_round_trip(x);
}

/// A boolean written at `pos` reads back.
pub proof fn lemma_take_bool(s: Seq<u8>, pos: int, b: bool)
    requires
        0 <= pos,
        pos + 4 <= s.len(),
        s.subrange(pos, pos + 4) == enc_bool(b),
    ensures
        take_bool(s, pos) == Some((b, pos + 4)),
{
    lemma_take_u32(s, pos, if b { 1u32 } else { 0u32 });
}

/// A string written at `pos` reads back.
pub proof fn lemma_take_bytes(s: Seq<u8>, pos: int, b: Seq<u8>)
    requires
        0 <= pos,
        b.len() <= u32::MAX,
        pos + 4 + b.len() <= s.len(),
        s.subrange(pos, pos + 4 + b.len()) == enc_bytes(b),
    ensures
        take_bytes(s, pos) == Some((b, pos + 4 + b.len())),
{
    assert(s.subrange(pos, pos + 4) =~= s.subrange(pos, pos + 4 + b.len()).subrange(0, 4));
    assert(enc_bytes(b).subrange(0, 4) =~= u32_be(b.len() as u32));
    lemma_take_u32(s, pos, b.len() as u32);
    assert(s.subrange(pos + 4, pos + 4 + b.len()) =~= s.subrange(pos, pos + 4 + b.len()).subrange(
        4,
        4 + b.len() as int,
    ));
}

/// The big-endian bytes of `int`.
pub fn serialize_u32(value: u32) -> (r: [u8; 4])
    ensures
        r@ == u32_be(value),
{
    let r = [(value >> 24u32) as u8, (value >> 16u32) as u8, (value >> 8u32) as u8, value as u8];
    assert(r@ =~= u32_be(value));
    r
}

/// Appends the big-endian bytes of `x`.
pub fn push_u32(out: &mut Vec<u8>, x: u32)
    ensures
        final(out)@ == old(out)@ + u32_be(x),
{
    out.push((x >> 24u32) as u8);
    out.push((x >> 16u32) as u8);
    out.push((x >> 8u32) as u8);
    out.push(x as u8);
    assert(final(out)@ =~= old(out)@ + u32_be(x));
}

pub fn push_bool(out: &mut Vec<u8>, b: bool)
    ensures
        final(out)@ == old(out)@ + enc_bool(b),
{
    push_u32(out, if b { 1u32 } else { 0u32 });
}

/// Appends `b` as it stands.
pub fn push_raw(out: &mut Vec<u8>, b: &[u8])
    ensures
        final(out)@ == old(out)@ + b@,
{
    let ghost start = out@;
    let mut i: usize = 0;
    while i < b.len()
        invariant
            i <= b@.len(),
            out@ == start + b@.subrange(0, i as int),
        decreases b@.len() - i,
    {
        out.push(b[i]);
        i += 1;
        assert(out@ =~= start + b@.subrange(0, i as int));
    }
    assert(b@.subrange(0, b@.len() as int) =~= b@);
}

/// Appends `b` as a string.
pub fn push_bytes(out: &mut Vec<u8>, b: &[u8])
    requires
        b@.len() <= u32::MAX,
    ensures
        final(out)@ == old(out)@ + enc_bytes(b@),
{
    push_u32(out, b.len() as u32);
    push_raw(out, b);
    assert(final(out)@ =~= old(out)@ + enc_bytes(b@));
}

/// Appends `b` as a text field: its NUL bytes are dropped.
pub fn push_str(out: &mut Vec<u8>, b: &[u8])
    requires
        b@.len() <= u32::MAX,
    ensures
        final(out)@ == old(out)@ + enc_str(b@),
{
    let clean = remove_nul_bytes(b);
    proof {
        crate::non_zero_bytes::lemma_strip_nul_no_nul(b@);
    }
    push_bytes(out, clean.as_slice());
}

/// Reads a `u32` at `pos`.
pub fn read_u32(buf: &[u8], pos: usize) -> (r: Option<(u32, usize)>)
    ensures
        match r {
            Some((v, p)) => take_u32(buf@, pos as int) == Some((v, p as int)),
            None => take_u32(buf@, pos as int) is None,
        },
{
    if pos <= buf.len() && buf.len() - pos >= 4 {
        let v = ((buf[pos] as u32) << 24u32) | ((buf[pos + 1] as u32) << 16u32) | ((buf[pos
            + 2] as u32) << 8u32) | (buf[pos + 3] as u32);
        Some((v, pos + 4))
    } else {
        None
    }
}

pub fn read_u8(buf: &[u8], pos: usize) -> (r: Option<(u8, usize)>)
    ensures
        match r {
            Some((v, p)) => take_u8(buf@, pos as int) == Some((v, p as int)),
            None => take_u8(buf@, pos as int) is None,
        },
{
    if pos < buf.len() {
        Some((buf[pos], pos + 1))
    } else {
        None
    }
}

pub fn read_bool(buf: &[u8], pos: usize) -> (r: Result<(bool, usize), FormatError>)
    ensures
        match r {
            Ok((v, p)) => take_bool(buf@, pos as int) == Some((v, p as int)),
            Err(_) => take_bool(buf@, pos as int) is None,
        },
{
    match read_u32(buf, pos) {
        Some((v, p)) => if v == 0 {
            Ok((false, p))
        } else if v == 1 {
            Ok((true, p))
        } else {
            Err(FormatError::InvalidBoolEncoding)
        },
        None => Err(FormatError::Eof),
    }
}

/// Copies `buf[start..end]`.
pub fn copy_range(buf: &[u8], start: usize, end: usize) -> (r: Vec<u8>)
    requires
        start <= end <= buf@.len(),
    ensures
        r@ == buf@.subrange(start as int, end as int),
{
    let mut r: Vec<u8> = Vec::new();
    push_raw(&mut r, &buf[start..end]);
    assert(r@ =~= buf@.subrange(start as int, end as int));
    r
}

/// Reads a string at `pos`.
pub fn read_bytes(buf: &[u8], pos: usize) -> (r: Option<(Vec<u8>, usize)>)
    ensures
        match r {
            Some((v, p)) => take_bytes(buf@, pos as int) == Some((v@, p as int)),
            None => take_bytes(buf@, pos as int) is None,
        },
{
    match read_u32(buf, pos) {
        Some((n, p)) => if n as usize <= buf.len() - p {
            let end = p + n as usize;
            Some((copy_range(buf, p, end), end))
        } else {
            None
        },
        None => None,
    }
}

} // verus!
