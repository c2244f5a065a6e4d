//! The structural byte codec used for payloads.
//!
//! Scalars are fixed-width little-endian; `bool` is one byte (0 or 1); an
//! optional value is a one-byte tag (0 or 1) followed by the value; byte
//! strings and sequences carry a little-endian `u64` count. Every decoder is
//! the exact inverse of its encoder, stated by a spec-level decode function
//! and a round-trip lemma.

use vstd::prelude::*;

verus! {

/// The payload bytes do not decode as the expected schema type.
#[derive(Debug, Clone, Copy, PartialEq, Eq)]
pub struct CodecError;

// ---------------------------------------------------------------------------
// Spec-level encoders.
// ---------------------------------------------------------------------------

pub open spec fn spec_enc_u8(x: u8) -> Seq<u8> {
    seq![x]
}

pub open spec fn spec_enc_u16(x: u16) -> Seq<u8> {
    seq![(x & 0xff) as u8, ((x >> 8) & 0xff) as u8]
}

pub open spec fn spec_enc_u32(x: u32) -> Seq<u8> {
    seq![
        (x & 0xff) as u8,
        ((x >> 8) & 0xff) as u8,
        ((x >> 16) & 0xff) as u8,
        ((x >> 24) & 0xff) as u8,
    ]
}

pub open spec fn spec_enc_u64(x: u64) -> Seq<u8> {
    seq![
        (x & 0xff) as u8,
        ((x >> 8) & 0xff) as u8,
        ((x >> 16) & 0xff) as u8,
        ((x >> 24) & 0xff) as u8,
        ((x >> 32) & 0xff) as u8,
        ((x >> 40) & 0xff) as u8,
        ((x >> 48) & 0xff) as u8,
        ((x >> 56) & 0xff) as u8,
    ]
}

pub open spec fn spec_enc_bool(x: bool) -> Seq<u8> {
    seq![if x { 1u8 } else { 0u8 }]
}

/// An optional value: a one-byte tag, then the value itself when present.
pub open spec fn spec_enc_opt<M>(o: Option<M>, f: spec_fn(M) -> Seq<u8>) -> Seq<u8> {
    match o {
        Option::None => seq![0u8],
        Option::Some(x) => seq![1u8] + f(x),
    }
}

// ---------------------------------------------------------------------------
// Spec-level decoders. Each consumes a prefix and yields the remainder.
// ---------------------------------------------------------------------------

/// The `u16` whose little-endian bytes are `s`.
pub open spec fn spec_le_u16(s: Seq<u8>) -> u16
    recommends
        s.len() == 2,
{
    (s[0] as u16) | ((s[1] as u16) << 8)
}

/// The `u32` whose little-endian bytes are `s`.
pub open spec fn spec_le_u32(s: Seq<u8>) -> u32
    recommends
        s.len() == 4,
{
    (s[0] as u32) | ((s[1] as u32) << 8) | ((s[2] as u32) << 16) | ((s[3] as u32) << 24)
}

/// The `u64` whose little-endian bytes are `s`.
pub open spec fn spec_le_u64(s: Seq<u8>) -> u64
    recommends
        s.len() == 8,
{
    (s[0] as u64) | ((s[1] as u64) << 8) | ((s[2] as u64) << 16) | ((s[3] as u64) << 24)
        | ((s[4] as u64) << 32) | ((s[5] as u64) << 40) | ((s[6] as u64) << 48)
        | ((s[7] as u64) << 56)
}

pub open spec fn spec_dec_u8(s: Seq<u8>) -> Option<(u8, Seq<u8>)> {
    if s.len() >= 1 {
        Option::Some((s[0], s.skip(1)))
    } else {
        Option::None
    }
}

pub open spec fn spec_dec_u16(s: Seq<u8>) -> Option<(u16, Seq<u8>)> {
    if s.len() >= 2 {
        Option::Some((spec_le_u16(s.take(2)), s.skip(2)))
    } else {
        Option::None
    }
}

pub open spec fn spec_dec_u32(s: Seq<u8>) -> Option<(u32, Seq<u8>)> {
    if s.len() >= 4 {
        Option::Some((spec_le_u32(s.take(4)), s.skip(4)))
    } else {
        Option::None
    }
}

pub open spec fn spec_dec_u64(s: Seq<u8>) -> Option<(u64, Seq<u8>)> {
    if s.len() >= 8 {
        Option::Some((spec_le_u64(s.take(8)), s.skip(8)))
    } else {
        Option::None
    }
}

pub open spec fn spec_dec_bool(s: Seq<u8>) -> Option<(bool, Seq<u8>)> {
    if s.len() >= 1 {
        if s[0] == 0 {
            Option::Some((false, s.skip(1)))
        } else if s[0] == 1 {
            Option::Some((true, s.skip(1)))
        } else {
            Option::None
        }
    } else {
        Option::None
    }
}

pub open spec fn spec_dec_opt<M>(
    s: Seq<u8>,
    fd: spec_fn(Seq<u8>) -> Option<(M, Seq<u8>)>,
) -> Option<(Option<M>, Seq<u8>)> {
    if s.len() < 1 {
        Option::None
    } else if s[0] == 0 {
        Option::Some((Option::None, s.skip(1)))
    } else if s[0] == 1 {
        match fd(s.skip(1)) {
            Option::Some((v, r)) => Option::Some((Option::Some(v), r)),
            Option::None => Option::None,
        }
    } else {
        Option::None
    }
}

// ---------------------------------------------------------------------------
// Round-trip lemmas: decoding an encoding yields the value and the remainder.
// ---------------------------------------------------------------------------

pub proof fn lemma_rt_u8(x: u8, rest: Seq<u8>)
    ensures
        spec_dec_u8(spec_enc_u8(x) + rest) == Option::Some((x, rest)),
{
    let s = spec_enc_u8(x) + rest;
    assert(s.skip(1) =~= rest);
}

pub proof fn lemma_le_u16_enc(x: u16)
    ensures
        spec_le_u16(spec_enc_u16(x)) == x,
{
    assert(((x & 0xff) as u8 as u16) | ((((x >> 8) & 0xff) as u8 as u16) << 8) == x)
        by (bit_vector);
}

pub proof fn lemma_le_u32_enc(x: u32)
    ensures
        spec_le_u32(spec_enc_u32(x)) == x,
{
    assert(((x & 0xff) as u8 as u32) | ((((x >> 8) & 0xff) as u8 as u32) << 8)
        | ((((x >> 16) & 0xff) as u8 as u32) << 16) | ((((x >> 24) & 0xff) as u8 as u32) << 24)
        == x) by (bit_vector);
}

pub proof fn lemma_le_u64_enc(x: u64)
    ensures
        spec_le_u64(spec_enc_u64(x)) == x,
{
    assert(((x & 0xff) as u8 as u64) | ((((x >> 8) & 0xff) as u8 as u64) << 8)
        | ((((x >> 16) & 0xff) as u8 as u64) << 16) | ((((x >> 24) & 0xff) as u8 as u64) << 24)
        | ((((x >> 32) & 0xff) as u8 as u64) << 32) | ((((x >> 40) & 0xff) as u8 as u64) << 40)
        | ((((x >> 48) & 0xff) as u8 as u64) << 48) | ((((x >> 56) & 0xff) as u8 as u64) << 56)
        == x) by (bit_vector);
}

pub proof fn lemma_rt_u16(x: u16, rest: Seq<u8>)
    ensures
        spec_dec_u16(spec_enc_u16(x) + rest) == Option::Some((x, rest)),
{
    let s = spec_enc_u16(x) + rest;
    assert(s.take(2) =~= spec_enc_u16(x));
    assert(s.skip(2) =~= rest);
    lemma_le_u16_enc(x);
}

pub proof fn lemma_rt_u32(x: u32, rest: Seq<u8>)
    ensures
        spec_dec_u32(spec_enc_u32(x) + rest) == Option::Some((x, rest)),
{
    let s = spec_enc_u32(x) + rest;
    assert(s.take(4) =~= spec_enc_u32(x));
    assert(s.skip(4) =~= rest);
    lemma_le_u32_enc(x);
}

pub proof fn lemma_rt_u64(x: u64, rest: Seq<u8>)
    ensures
        spec_dec_u64(spec_enc_u64(x) + rest) == Option::Some((x, rest)),
{
    let s = spec_enc_u64(x) + rest;
    assert(s.take(8) =~= spec_enc_u64(x));
    assert(s.skip(8) =~= rest);
    lemma_le_u64_enc(x);
}

pub proof fn lemma_rt_bool(x: bool, rest: Seq<u8>)
    ensures
        spec_dec_bool(spec_enc_bool(x) + rest) == Option::Some((x, rest)),
{
    let s = spec_enc_bool(x) + rest;
    assert(s.skip(1) =~= rest);
}

pub proof fn lemma_rt_opt<M>(
    o: Option<M>,
    f: spec_fn(M) -> Seq<u8>,
    fd: spec_fn(Seq<u8>) -> Option<(M, Seq<u8>)>,
    rest: Seq<u8>,
)
    requires
        forall|v: M, r: Seq<u8>| #[trigger] fd(f(v) + r) == Option::Some((v, r)),
    ensures
        spec_dec_opt(spec_enc_opt(o, f) + rest, fd) == Option::Some((o, rest)),
{
    match o {
        Option::None => {
            let s = spec_enc_opt(o, f) + rest;
            assert(s.skip(1) =~= rest);
        },
        Option::Some(x) => {
            let s = spec_enc_opt(o, f) + rest;
            assert(s.skip(1) =~= f(x) + rest);
            assert(fd(f(x) + rest) == Option::Some((x, rest)));
        },
    }
}

// ---------------------------------------------------------------------------
// Executable encoders: each appends the spec encoding to `out`.
// ---------------------------------------------------------------------------

pub fn enc_u8(out: &mut Vec<u8>, x: u8)
    ensures
        final(out)@ == old(out)@ + spec_enc_u8(x),
{
    out.push(x);
    assert(out@ =~= old(out)@ + spec_enc_u8(x));
}

pub fn enc_u16(out: &mut Vec<u8>, x: u16)
    ensures
        final(out)@ == old(out)@ + spec_enc_u16(x),
{
    assert(x & 0xff < 256 && (x >> 8) & 0xff < 256) by (bit_vector);
    out.push((x & 0xff) as u8);
    out.push(((x >> 8) & 0xff) as u8);
    assert(out@ =~= old(out)@ + spec_enc_u16(x));
}

pub fn enc_u32(out: &mut Vec<u8>, x: u32)
    ensures
        final(out)@ == old(out)@ + spec_enc_u32(x),
{
    assert(x & 0xff < 256 && (x >> 8) & 0xff < 256 && (x >> 16) & 0xff < 256
        && (x >> 24) & 0xff < 256) by (bit_vector);
    out.push((x & 0xff) as u8);
    out.push(((x >> 8) & 0xff) as u8);
    out.push(((x >> 16) & 0xff) as u8);
    out.push(((x >> 24) & 0xff) as u8);
    assert(out@ =~= old(out)@ + spec_enc_u32(x));
}

pub fn enc_u64(out: &mut Vec<u8>, x: u64)
    ensures
        final(out)@ == old(out)@ + spec_enc_u64(x),
{
    assert(x & 0xff < 256 && (x >> 8) & 0xff < 256 && (x >> 16) & 0xff < 256
        && (x >> 24) & 0xff < 256 && (x >> 32) & 0xff < 256 && (x >> 40) & 0xff < 256
        && (x >> 48) & 0xff < 256 && (x >> 56) & 0xff < 256) by (bit_vector);
    out.push((x & 0xff) as u8);
    out.push(((x >> 8) & 0xff) as u8);
    out.push(((x >> 16) & 0xff) as u8);
    out.push(((x >> 24) & 0xff) as u8);
    out.push(((x >> 32) & 0xff) as u8);
    out.push(((x >> 40) & 0xff) as u8);
    out.push(((x >> 48) & 0xff) as u8);
    out.push(((x >> 56) & 0xff) as u8);
    assert(out@ =~= old(out)@ + spec_enc_u64(x));
}

pub fn enc_bool(out: &mut Vec<u8>, x: bool)
    ensures
        final(out)@ == old(out)@ + spec_enc_bool(x),
{
    out.push(if x { 1u8 } else { 0u8 });
    assert(out@ =~= old(out)@ + spec_enc_bool(x));
}

// ---------------------------------------------------------------------------
// Executable decoders over a buffer and a start position. `dec_ok` relates
// the result to the spec-level decoder applied to the bytes from `pos` on.
// ---------------------------------------------------------------------------

pub open spec fn dec_ok<M>(
    buf: Seq<u8>,
    pos: int,
    r: Result<(M, usize), CodecError>,
    sd: Option<(M, Seq<u8>)>,
) -> bool {
    match r {
        Result::Ok(vp) => pos <= vp.1 <= buf.len() && sd == Option::Some(
            (vp.0, buf.skip(vp.1 as int)),
        ),
        Result::Err(_) => sd is None,
    }
}

pub fn dec_u8(buf: &[u8], pos: usize) -> (r: Result<(u8, usize), CodecError>)
    requires
        pos <= buf@.len(),
    ensures
        dec_ok(buf@, pos as int, r, spec_dec_u8(buf@.skip(pos as int))),
{
    if buf.len() - pos >= 1 {
        let v = buf[pos];
        proof {
            assert(buf@.skip(pos as int)[0] == buf@[pos as int]);
            assert(buf@.skip(pos as int).skip(1) =~= buf@.skip(pos as int + 1));
        }
        Result::Ok((v, pos + 1))
    } else {
        Result::Err(CodecError)
    }
}

pub fn dec_u16(buf: &[u8], pos: usize) -> (r: Result<(u16, usize), CodecError>)
    requires
        pos <= buf@.len(),
    ensures
        dec_ok(buf@, pos as int, r, spec_dec_u16(buf@.skip(pos as int))),
{
    if buf.len() - pos >= 2 {
        let v = (buf[pos] as u16) | ((buf[pos + 1] as u16) << 8);
        proof {
            let s = buf@.skip(pos as int);
            assert(s.take(2) =~= seq![buf@[pos as int], buf@[pos as int + 1]]);
            assert(s.skip(2) =~= buf@.skip(pos as int + 2));
        }
        Result::Ok((v, pos + 2))
    } else {
        Result::Err(CodecError)
    }
}

pub fn dec_u32(buf: &[u8], pos: usize) -> (r: Result<(u32, usize), CodecError>)
    requires
        pos <= buf@.len(),
    ensures
        dec_ok(buf@, pos as int, r, spec_dec_u32(buf@.skip(pos as int))),
{
    if buf.len() - pos >= 4 {
        let v = (buf[pos] as u32) | ((buf[pos + 1] as u32) << 8) | ((buf[pos + 2] as u32) << 16)
            | ((buf[pos + 3] as u32) << 24);
        proof {
            let s = buf@.skip(pos as int);
            assert(s.take(4) =~= seq![
                buf@[pos as int],
                buf@[pos as int + 1],
                buf@[pos as int + 2],
                buf@[pos as int + 3],
            ]);
            assert(s.skip(4) =~= buf@.skip(pos as int + 4));
        }
        Result::Ok((v, pos + 4))
    } else {
        Result::Err(CodecError)
    }
}

pub fn dec_u64(buf: &[u8], pos: usize) -> (r: Result<(u64, usize), CodecError>)
    requires
        pos <= buf@.len(),
    ensures
        dec_ok(buf@, pos as int, r, spec_dec_u64(buf@.skip(pos as int))),
{
    if buf.len() - pos >= 8 {
        let v = (buf[pos] as u64) | ((buf[pos + 1] as u64) << 8) | ((buf[pos + 2] as u64) << 16)
            | ((buf[pos + 3] as u64) << 24) | ((buf[pos + 4] as u64) << 32)
            | ((buf[pos + 5] as u64) << 40) | ((buf[pos + 6] as u64) << 48)
            | ((buf[pos + 7] as u64) << 56);
        proof {
            let s = buf@.skip(pos as int);
            assert(s.take(8) =~= seq![
                buf@[pos as int],
                buf@[pos as int + 1],
                buf@[pos as int + 2],
                buf@[pos as int + 3],
                buf@[pos as int + 4],
                buf@[pos as int + 5],
                buf@[pos as int + 6],
                buf@[pos as int + 7],
            ]);
            assert(s.skip(8) =~= buf@.skip(pos as int + 8));
        }
        Result::Ok((v, pos + 8))
    } else {
        Result::Err(CodecError)
    }
}

pub fn dec_bool(buf: &[u8], pos: usize) -> (r: Result<(bool, usize), CodecError>)
    requires
        pos <= buf@.len(),
    ensures
        dec_ok(buf@, pos as int, r, spec_dec_bool(buf@.skip(pos as int))),
{
    if buf.len() - pos >= 1 {
        let b = buf[pos];
        proof {
            assert(buf@.skip(pos as int)[0] == buf@[pos as int]);
            assert(buf@.skip(pos as int).skip(1) =~= buf@.skip(pos as int + 1));
        }
        if b == 0 {
            Result::Ok((false, pos + 1))
        } else if b == 1 {
            Result::Ok((true, pos + 1))
        } else {
            Result::Err(CodecError)
        }
    } else {
        Result::Err(CodecError)
    }
}

} // verus!

verus! {

// ---------------------------------------------------------------------------
// Byte strings and character strings: a little-endian u64 count, then the
// bytes; a string's bytes are its UTF-8 encoding.
// ---------------------------------------------------------------------------

pub open spec fn spec_enc_bytes(m: Seq<u8>) -> Seq<u8>
    recommends
        m.len() <= u64::MAX,
{
    spec_enc_u64(m.len() as u64) + m
}

pub open spec fn spec_dec_bytes(s: Seq<u8>) -> Option<(Seq<u8>, Seq<u8>)> {
    match spec_dec_u64(s) {
        Option::Some((n, r)) => if n <= r.len() {
            Option::Some((r.take(n as int), r.skip(n as int)))
        } else {
            Option::None
        },
        Option::None => Option::None,
    }
}

pub open spec fn spec_enc_str(m: Seq<char>) -> Seq<u8> {
    spec_enc_bytes(vstd::utf8::encode_utf8(m))
}

pub open spec fn spec_dec_str(s: Seq<u8>) -> Option<(Seq<char>, Seq<u8>)> {
    match spec_dec_bytes(s) {
        Option::Some((b, r)) => if vstd::utf8::valid_utf8(b) {
            Option::Some((vstd::utf8::decode_utf8(b), r))
        } else {
            Option::None
        },
        Option::None => Option::None,
    }
}

pub proof fn lemma_rt_bytes(m: Seq<u8>, rest: Seq<u8>)
    requires
        m.len() <= u64::MAX,
    ensures
        spec_dec_bytes(spec_enc_bytes(m) + rest) == Option::Some((m, rest)),
{
    lemma_rt_u64(m.len() as u64, m + rest);
    assert(spec_enc_bytes(m) + rest =~= spec_enc_u64(m.len() as u64) + (m + rest));
    assert((m + rest).take(m.len() as int) =~= m);
    assert((m + rest).skip(m.len() as int) =~= rest);
}

pub proof fn lemma_rt_str(m: Seq<char>, rest: Seq<u8>)
    requires
        vstd::utf8::encode_utf8(m).len() <= u64::MAX,
    ensures
        spec_dec_str(spec_enc_str(m) + rest) == Option::Some((m, rest)),
{
    broadcast use vstd::utf8::encode_utf8_valid_utf8;
    broadcast use vstd::utf8::encode_utf8_decode_utf8;

    lemma_rt_bytes(vstd::utf8::encode_utf8(m), rest);
}

/// Append a length-prefixed byte string.
pub fn enc_bytes(out: &mut Vec<u8>, m: &[u8])
    ensures
        final(out)@ == old(out)@ + spec_enc_bytes(m@),
{
    let n: u64 = m.len() as u64;
    enc_u64(out, n);
    let ghost mid = out@;
    let mut i: usize = 0;
    while i < m.len()
        invariant
            i <= m@.len(),
            out@ == mid + m@.take(i as int),
        decreases m@.len() - i,
    {
        out.push(m[i]);
        proof {
            assert(mid + m@.take(i as int) + seq![m@[i as int]] =~= mid + m@.take(i as int + 1));
        }
        i = i + 1;
    }
    proof {
        assert(m@.take(m@.len() as int) =~= m@);
        assert(mid + m@ =~= old(out)@ + spec_enc_bytes(m@));
    }
}

/// Decode a length-prefixed byte string at `pos`.
pub fn dec_bytes(buf: &[u8], pos: usize) -> (r: Result<(Vec<u8>, usize), CodecError>)
    requires
        pos <= buf@.len(),
    ensures
        match r {
            Result::Ok(vp) => pos <= vp.1 <= buf@.len() && spec_dec_bytes(buf@.skip(pos as int))
                == Option::Some((vp.0@, buf@.skip(vp.1 as int))),
            Result::Err(_) => spec_dec_bytes(buf@.skip(pos as int)) is None,
        },
{
    match dec_u64(buf, pos) {
        Result::Ok((n, p)) => {
            if n <= (buf.len() - p) as u64 {
                let end = p + (n as usize);
                let sub = vstd::slice::slice_subrange(buf, p, end);
                let v = vstd::slice::slice_to_vec(sub);
                proof {
                    assert(buf@.skip(p as int).take(n as int) =~= buf@.subrange(
                        p as int,
                        end as int,
                    ));
                    assert(buf@.skip(p as int).skip(n as int) =~= buf@.skip(end as int));
                }
                Result::Ok((v, end))
            } else {
                Result::Err(CodecError)
            }
        },
        Result::Err(e) => Result::Err(e),
    }
}

/// Relies on `String::from_utf8`: it succeeds exactly on valid UTF-8 input
/// and returns its decoding, the unique character sequence with that
/// encoding.
#[verifier::external_body]
fn string_from_utf8(bytes: Vec<u8>) -> (r: Option<String>)
    ensures
        match r {
            Option::Some(s) => vstd::utf8::valid_utf8(bytes@) && s@ == vstd::utf8::decode_utf8(
                bytes@,
            ),
            Option::None => !vstd::utf8::valid_utf8(bytes@),
        },
{
    String::from_utf8(bytes).ok()
}

/// Append a length-prefixed string as its UTF-8 bytes.
pub fn enc_str(out: &mut Vec<u8>, m: &str)
    ensures
        final(out)@ == old(out)@ + spec_enc_str(m@),
{
    enc_bytes(out, m.as_bytes());
}

/// Decode a length-prefixed string at `pos`.
pub fn dec_str(buf: &[u8], pos: usize) -> (r: Result<(String, usize), CodecError>)
    requires
        pos <= buf@.len(),
    ensures
        match r {
            Result::Ok(vp) => pos <= vp.1 <= buf@.len() && spec_dec_str(buf@.skip(pos as int))
                == Option::Some((vp.0@, buf@.skip(vp.1 as int))),
            Result::Err(_) => spec_dec_str(buf@.skip(pos as int)) is None,
        },
{
    match dec_bytes(buf, pos) {
        Result::Ok((b, p)) => match string_from_utf8(b) {
            Option::Some(s) => Result::Ok((s, p)),
            Option::None => Result::Err(CodecError),
        },
        Result::Err(e) => Result::Err(e),
    }
}

// ---------------------------------------------------------------------------
// Optional fixed-width scalars.
// ---------------------------------------------------------------------------

pub open spec fn spec_enc_opt_u8(o: Option<u8>) -> Seq<u8> {
    spec_enc_opt(o, |x: u8| spec_enc_u8(x))
}

pub open spec fn spec_dec_opt_u8(s: Seq<u8>) -> Option<(Option<u8>, Seq<u8>)> {
    spec_dec_opt(s, |t: Seq<u8>| spec_dec_u8(t))
}

pub proof fn lemma_rt_opt_u8(o: Option<u8>, rest: Seq<u8>)
    ensures
        spec_dec_opt_u8(spec_enc_opt_u8(o) + rest) == Option::Some((o, rest)),
{
    let f = (|x: u8| spec_enc_u8(x));
    let fd = (|t: Seq<u8>| spec_dec_u8(t));
    assert forall|v: u8, r: Seq<u8>| #[trigger] fd(f(v) + r) == Option::Some((v, r)) by {
        lemma_rt_u8(v, r);
    }
    lemma_rt_opt(o, f, fd, rest);
}

/// Append the encoding of an optional `u8`.
pub fn enc_opt_u8(out: &mut Vec<u8>, o: &Option<u8>)
    ensures
        final(out)@ == old(out)@ + spec_enc_opt_u8(*o),
{
    match o {
        Option::None => {
            enc_u8(out, 0);
            assert(out@ =~= old(out)@ + spec_enc_opt_u8(*o));
        },
        Option::Some(x) => {
            enc_u8(out, 1);
            enc_u8(out, *x);
            assert(out@ =~= old(out)@ + spec_enc_opt_u8(*o));
        },
    }
}

/// Decode an optional `u8` at `pos`.
pub fn dec_opt_u8(buf: &[u8], pos: usize) -> (r: Result<(Option<u8>, usize), CodecError>)
    requires
        pos <= buf@.len(),
    ensures
        dec_ok(buf@, pos as int, r, spec_dec_opt_u8(buf@.skip(pos as int))),
{
    match dec_u8(buf, pos) {
        Result::Ok((tag, p)) => {
            if tag == 0 {
                Result::Ok((Option::None, p))
            } else if tag == 1 {
                proof {
                    assert(buf@.skip(pos as int).skip(1) =~= buf@.skip(p as int));
                }
                match dec_u8(buf, p) {
                    Result::Ok((x, p2)) => Result::Ok((Option::Some(x), p2)),
                    Result::Err(e) => Result::Err(e),
                }
            } else {
                Result::Err(CodecError)
            }
        },
        Result::Err(e) => Result::Err(e),
    }
}

pub open spec fn spec_enc_opt_u16(o: Option<u16>) -> Seq<u8> {
    spec_enc_opt(o, |x: u16| spec_enc_u16(x))
}

pub open spec fn spec_dec_opt_u16(s: Seq<u8>) -> Option<(Option<u16>, Seq<u8>)> {
    spec_dec_opt(s, |t: Seq<u8>| spec_dec_u16(t))
}

pub proof fn lemma_rt_opt_u16(o: Option<u16>, rest: Seq<u8>)
    ensures
        spec_dec_opt_u16(spec_enc_opt_u16(o) + rest) == Option::Some((o, rest)),
{
    let f = (|x: u16| spec_enc_u16(x));
    let fd = (|t: Seq<u8>| spec_dec_u16(t));
    assert forall|v: u16, r: Seq<u8>| #[trigger] fd(f(v) + r) == Option::Some((v, r)) by {
        lemma_rt_u16(v, r);
    }
    lemma_rt_opt(o, f, fd, rest);
}

/// Append the encoding of an optional `u16`.
pub fn enc_opt_u16(out: &mut Vec<u8>, o: &Option<u16>)
    ensures
        final(out)@ == old(out)@ + spec_enc_opt_u16(*o),
{
    match o {
        Option::None => {
            enc_u8(out, 0);
            assert(out@ =~= old(out)@ + spec_enc_opt_u16(*o));
        },
        Option::Some(x) => {
            enc_u8(out, 1);
            enc_u16(out, *x);
            assert(out@ =~= old(out)@ + spec_enc_opt_u16(*o));
        },
    }
}

/// Decode an optional `u16` at `pos`.
pub fn dec_opt_u16(buf: &[u8], pos: usize) -> (r: Result<(Option<u16>, usize), CodecError>)
    requires
        pos <= buf@.len(),
    ensures
        dec_ok(buf@, pos as int, r, spec_dec_opt_u16(buf@.skip(pos as int))),
{
    match dec_u8(buf, pos) {
        Result::Ok((tag, p)) => {
            if tag == 0 {
                Result::Ok((Option::None, p))
            } else if tag == 1 {
                proof {
                    assert(buf@.skip(pos as int).skip(1) =~= buf@.skip(p as int));
                }
                match dec_u16(buf, p) {
                    Result::Ok((x, p2)) => Result::Ok((Option::Some(x), p2)),
                    Result::Err(e) => Result::Err(e),
                }
            } else {
                Result::Err(CodecError)
            }
        },
        Result::Err(e) => Result::Err(e),
    }
}

pub open spec fn spec_enc_opt_u32(o: Option<u32>) -> Seq<u8> {
    spec_enc_opt(o, |x: u32| spec_enc_u32(x))
}

pub open spec fn spec_dec_opt_u32(s: Seq<u8>) -> Option<(Option<u32>, Seq<u8>)> {
    spec_dec_opt(s, |t: Seq<u8>| spec_dec_u32(t))
}

pub proof fn lemma_rt_opt_u32(o: Option<u32>, rest: Seq<u8>)
    ensures
        spec_dec_opt_u32(spec_enc_opt_u32(o) + rest) == Option::Some((o, rest)),
{
    let f = (|x: u32| spec_enc_u32(x));
    let fd = (|t: Seq<u8>| spec_dec_u32(t));
    assert forall|v: u32, r: Seq<u8>| #[trigger] fd(f(v) + r) == Option::Some((v, r)) by {
        lemma_rt_u32(v, r);
    }
    lemma_rt_opt(o, f, fd, rest);
}

/// Append the encoding of an optional `u32`.
pub fn enc_opt_u32(out: &mut Vec<u8>, o: &Option<u32>)
    ensures
        final(out)@ == old(out)@ + spec_enc_opt_u32(*o),
{
    match o {
        Option::None => {
            enc_u8(out, 0);
            assert(out@ =~= old(out)@ + spec_enc_opt_u32(*o));
        },
        Option::Some(x) => {
            enc_u8(out, 1);
            enc_u32(out, *x);
            assert(out@ =~= old(out)@ + spec_enc_opt_u32(*o));
        },
    }
}

/// Decode an optional `u32` at `pos`.
pub fn dec_opt_u32(buf: &[u8], pos: usize) -> (r: Result<(Option<u32>, usize), CodecError>)
    requires
        pos <= buf@.len(),
    ensures
        dec_ok(buf@, pos as int, r, spec_dec_opt_u32(buf@.skip(pos as int))),
{
    match dec_u8(buf, pos) {
        Result::Ok((tag, p)) => {
            if tag == 0 {
                Result::Ok((Option::None, p))
            } else if tag == 1 {
                proof {
                    assert(buf@.skip(pos as int).skip(1) =~= buf@.skip(p as int));
                }
                match dec_u32(buf, p) {
                    Result::Ok((x, p2)) => Result::Ok((Option::Some(x), p2)),
                    Result::Err(e) => Result::Err(e),
                }
            } else {
                Result::Err(CodecError)
            }
        },
        Result::Err(e) => Result::Err(e),
    }
}

} // verus!
