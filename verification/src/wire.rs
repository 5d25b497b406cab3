//! Wire primitives: big-endian integers and length-prefixed strings, read
//! from and written to byte buffers.

use vstd::prelude::*;
use crate::error::{VncError, VncErrorView};

verus! {

/// The number that two bytes spell in big-endian order.
pub open spec fn spec_u16(hi: u8, lo: u8) -> int {
    hi as int * 256 + lo as int
}

/// The number that four bytes spell in big-endian order.
pub open spec fn spec_u32(b0: u8, b1: u8, b2: u8, b3: u8) -> int {
    b0 as int * 16777216 + b1 as int * 65536 + b2 as int * 256 + b3 as int
}

/// The big-endian number at offset `at` of `s`, two bytes wide.
pub open spec fn u16_at(s: Seq<u8>, at: int) -> int {
    spec_u16(s[at], s[at + 1])
}

/// The big-endian number at offset `at` of `s`, four bytes wide.
pub open spec fn u32_at(s: Seq<u8>, at: int) -> int {
    spec_u32(s[at], s[at + 1], s[at + 2], s[at + 3])
}

/// The two's-complement reading of a 32-bit pattern.
pub open spec fn as_signed(v: int) -> int {
    if v < 0x8000_0000 {
        v
    } else {
        v - 0x1_0000_0000
    }
}

/// The 32-bit pattern of a signed number.
pub open spec fn as_unsigned(v: int) -> int {
    if v < 0 {
        v + 0x1_0000_0000
    } else {
        v
    }
}

/// The two bytes of `v`, most significant first.
pub open spec fn u16_bytes(v: int) -> Seq<u8> {
    seq![(v / 256) as u8, (v % 256) as u8]
}

/// The four bytes of `v`, most significant first.
pub open spec fn u32_bytes(v: int) -> Seq<u8> {
    seq![
        (v / 16777216) as u8,
        ((v / 65536) % 256) as u8,
        ((v / 256) % 256) as u8,
        (v % 256) as u8,
    ]
}

/// A length-prefixed string on the wire: the length as four bytes, then the
/// bytes themselves.
pub open spec fn string_bytes(text: Seq<u8>) -> Seq<u8> {
    u32_bytes(text.len() as int) + text
}

/// Reading back what `u16_bytes` wrote gives the number again.
pub proof fn lemma_u16_round_trip(v: u16)
    ensures
        u16_bytes(v as int).len() == 2,
        u16_at(u16_bytes(v as int), 0) == v,
{
}

/// Reading back what `u32_bytes` wrote gives the number again.
pub proof fn lemma_u32_round_trip(v: u32)
    ensures
        u32_bytes(v as int).len() == 4,
        u32_at(u32_bytes(v as int), 0) == v,
{
}

/// Writing what was read gives the same bytes again.
pub proof fn lemma_u32_bytes_of_read(b0: u8, b1: u8, b2: u8, b3: u8)
    ensures
        u32_bytes(spec_u32(b0, b1, b2, b3)) == seq![b0, b1, b2, b3],
{
    let v = spec_u32(b0, b1, b2, b3);
    vstd::arithmetic::div_mod::lemma_fundamental_div_mod_converse(
        v,
        16777216,
        b0 as int,
        b1 as int * 65536 + b2 as int * 256 + b3 as int,
    );
    vstd::arithmetic::div_mod::lemma_fundamental_div_mod_converse(
        v,
        65536,
        b0 as int * 256 + b1 as int,
        b2 as int * 256 + b3 as int,
    );
    vstd::arithmetic::div_mod::lemma_fundamental_div_mod_converse(
        v,
        256,
        b0 as int * 65536 + b1 as int * 256 + b2 as int,
        b3 as int,
    );
    assert(u32_bytes(v) =~= seq![b0, b1, b2, b3]);
}

/// Writing what was read gives the same bytes again.
pub proof fn lemma_u16_bytes_of_read(hi: u8, lo: u8)
    ensures
        u16_bytes(spec_u16(hi, lo)) == seq![hi, lo],
{
    assert(u16_bytes(spec_u16(hi, lo)) =~= seq![hi, lo]);
}

/// The signed and the unsigned reading of 32 bits determine each other.
pub proof fn lemma_signed_round_trip(v: i32, w: u32)
    ensures
        as_signed(as_unsigned(v as int)) == v,
        as_unsigned(as_signed(w as int)) == w,
        0 <= as_unsigned(v as int) <= u32::MAX,
        i32::MIN <= as_signed(w as int) <= i32::MAX,
{
}

/// Reads one byte at offset `at`. Fails with `Io` when the buffer ends before it.
pub fn read_u8(buf: &[u8], at: usize) -> (res: Result<u8, VncError>)
    ensures
        at < buf@.len() ==> res == Ok::<u8, VncError>(buf@[at as int]),
        at >= buf@.len() ==> res == Err::<u8, VncError>(VncError::Io),
{
    if at < buf.len() {
        Ok(buf[at])
    } else {
        Err(VncError::Io)
    }
}

/// Reads a big-endian `u16` at offset `at`. Fails with `Io` when the buffer
/// ends before its last byte.
pub fn read_u16(buf: &[u8], at: usize) -> (res: Result<u16, VncError>)
    ensures
        at + 2 <= buf@.len() ==> (res matches Ok(v) && v == u16_at(buf@, at as int)),
        at + 2 > buf@.len() ==> res == Err::<u16, VncError>(VncError::Io),
{
    if buf.len() >= 2 && at <= buf.len() - 2 {
        Ok(buf[at] as u16 * 256 + buf[at + 1] as u16)
    } else {
        Err(VncError::Io)
    }
}

/// Reads a big-endian `u32` at offset `at`. Fails with `Io` when the buffer
/// ends before its last byte.
pub fn read_u32(buf: &[u8], at: usize) -> (res: Result<u32, VncError>)
    ensures
        at + 4 <= buf@.len() ==> (res matches Ok(v) && v == u32_at(buf@, at as int)),
        at + 4 > buf@.len() ==> res == Err::<u32, VncError>(VncError::Io),
{
    if buf.len() >= 4 && at <= buf.len() - 4 {
        Ok(
            buf[at] as u32 * 16777216 + buf[at + 1] as u32 * 65536 + buf[at + 2] as u32 * 256
                + buf[at + 3] as u32,
        )
    } else {
        Err(VncError::Io)
    }
}

/// Reads a big-endian two's-complement `i32` at offset `at`. Fails with `Io`
/// when the buffer ends before its last byte.
pub fn read_i32(buf: &[u8], at: usize) -> (res: Result<i32, VncError>)
    ensures
        at + 4 <= buf@.len() ==> (res matches Ok(v) && v == as_signed(u32_at(buf@, at as int))),
        at + 4 > buf@.len() ==> res == Err::<i32, VncError>(VncError::Io),
{
    match read_u32(buf, at) {
        Ok(v) => Ok(to_signed(v)),
        Err(e) => Err(VncError::Io),
    }
}

/// The signed number with the same 32 bits as `v`.
pub fn to_signed(v: u32) -> (s: i32)
    ensures
        s == as_signed(v as int),
{
    if v < 0x8000_0000 {
        v as i32
    } else {
        (v as i64 - 0x1_0000_0000) as i32
    }
}

/// The unsigned number with the same 32 bits as `v`.
pub fn to_unsigned(v: i32) -> (u: u32)
    ensures
        u == as_unsigned(v as int),
{
    if v < 0 {
        (v as i64 + 0x1_0000_0000) as u32
    } else {
        v as u32
    }
}

/// Copies `len` bytes starting at offset `at`. Fails with `Io` when the
/// buffer ends before the last of them.
pub fn read_bytes(buf: &[u8], at: usize, len: usize) -> (res: Result<Vec<u8>, VncError>)
    ensures
        at + len <= buf@.len() ==> (res matches Ok(v) && v@ == buf@.subrange(at as int, at + len)),
        at + len > buf@.len() ==> res == Err::<Vec<u8>, VncError>(VncError::Io),
{
    if at > buf.len() || len > buf.len() - at {
        return Err(VncError::Io);
    }
    let mut out: Vec<u8> = Vec::with_capacity(len);
    let mut i: usize = 0;
    while i < len
        invariant
            i <= len,
            at + len <= buf@.len() <= usize::MAX,
            out@ == buf@.subrange(at as int, at + i),
        decreases len - i,
    {
        out.push(buf[at + i]);
        i += 1;
        assert(out@ =~= buf@.subrange(at as int, at + i));
    }
    Ok(out)
}

/// Turns bytes into text. This is `String::from_utf8`: it gives a string
/// exactly when the bytes are valid UTF-8, and the string then holds the
/// characters that the bytes encode.
#[verifier::external_body]
pub(crate) fn string_from_utf8(bytes: Vec<u8>) -> (res: Option<String>)
    ensures
        res is Some <==> vstd::utf8::valid_utf8(bytes@),
        res matches Some(text) ==> text@ == vstd::utf8::decode_utf8(bytes@),
{
    String::from_utf8(bytes).ok()
}

/// What bytes stand for as text: their characters, where they are valid UTF-8.
pub open spec fn spec_text(bytes: Seq<u8>) -> Result<Seq<char>, VncErrorView> {
    if vstd::utf8::valid_utf8(bytes) {
        Ok(vstd::utf8::decode_utf8(bytes))
    } else {
        Err(VncErrorView::Protocol)
    }
}

/// Reads bytes as text. Fails with `Protocol` where they are not valid UTF-8.
pub fn read_text(bytes: Vec<u8>) -> (res: Result<String, VncError>)
    ensures
        crate::error::view_result(res) == spec_text(bytes@),
{
    match string_from_utf8(bytes) {
        Some(text) => Ok(text),
        None => Err(VncError::Protocol),
    }
}

/// What reading a length-prefixed string at offset `at` gives: the text
/// and the offset after it. A buffer that ends before the string does
/// fails with `Io`, bytes that are not UTF-8 with `Protocol`.
pub open spec fn spec_read_string(buf: Seq<u8>, at: int) -> Result<(Seq<char>, int), VncErrorView> {
    if at + 4 > buf.len() || at + 4 + u32_at(buf, at) > buf.len() {
        Err(VncErrorView::Io)
    } else {
        match spec_text(buf.subrange(at + 4, at + 4 + u32_at(buf, at))) {
            Ok(text) => Ok((text, at + 4 + u32_at(buf, at))),
            Err(e) => Err(e),
        }
    }
}

/// The mathematical value of what reading a string gives.
pub open spec fn view_string(res: Result<(String, usize), VncError>) -> Result<
    (Seq<char>, int),
    VncErrorView,
> {
    match res {
        Ok((text, next)) => Ok((text@, next as int)),
        Err(e) => Err(e@),
    }
}

/// Reads a length-prefixed string at offset `at`.
pub fn read_string(buf: &[u8], at: usize) -> (res: Result<(String, usize), VncError>)
    ensures
        view_string(res) == spec_read_string(buf@, at as int),
{
    let total = buf.len();
    let length = match read_u32(buf, at) {
        Ok(length) => length as usize,
        Err(e) => {
            return Err(VncError::Io);
        },
    };
    if length > total - at - 4 {
        return Err(VncError::Io);
    }
    let raw = match read_bytes(buf, at + 4, length) {
        Ok(raw) => raw,
        Err(e) => {
            return Err(VncError::Io);
        },
    };
    match read_text(raw) {
        Ok(text) => Ok((text, at + 4 + length)),
        Err(e) => Err(e),
    }
}

/// Appends a length-prefixed string. Fails with `Protocol`, and appends
/// nothing, where the text is longer than four bytes can count.
pub fn write_string(out: &mut Vec<u8>, text: &str) -> (res: Result<(), VncError>)
    ensures
        vstd::utf8::encode_utf8(text@).len() <= u32::MAX ==> res is Ok && final(out)@ == old(
            out,
        )@ + string_bytes(vstd::utf8::encode_utf8(text@)),
        vstd::utf8::encode_utf8(text@).len() > u32::MAX ==> res == Err::<(), VncError>(
            VncError::Protocol,
        ) && final(out)@ == old(out)@,
{
    let bytes = text.as_bytes();
    if bytes.len() > 0xffff_ffff {
        return Err(VncError::Protocol);
    }
    write_u32(out, bytes.len() as u32);
    write_bytes(out, bytes);
    assert(out@ =~= old(out)@ + string_bytes(bytes@));
    Ok(())
}

/// Appends one byte.
pub fn write_u8(out: &mut Vec<u8>, v: u8)
    ensures
        final(out)@ == old(out)@.push(v),
{
    out.push(v);
}

/// Appends `v` as two bytes, most significant first.
pub fn write_u16(out: &mut Vec<u8>, v: u16)
    ensures
        final(out)@ == old(out)@ + u16_bytes(v as int),
{
    out.push((v / 256) as u8);
    out.push((v % 256) as u8);
    assert(out@ =~= old(out)@ + u16_bytes(v as int));
}

/// Appends `v` as four bytes, most significant first.
pub fn write_u32(out: &mut Vec<u8>, v: u32)
    ensures
        final(out)@ == old(out)@ + u32_bytes(v as int),
{
    out.push((v / 16777216) as u8);
    out.push(((v / 65536) % 256) as u8);
    out.push(((v / 256) % 256) as u8);
    out.push((v % 256) as u8);
    assert(out@ =~= old(out)@ + u32_bytes(v as int));
}

/// Appends `v` in two's complement as four bytes, most significant first.
pub fn write_i32(out: &mut Vec<u8>, v: i32)
    ensures
        final(out)@ == old(out)@ + u32_bytes(as_unsigned(v as int)),
{
    write_u32(out, to_unsigned(v));
}

/// Appends a copy of `bytes`.
pub fn write_bytes(out: &mut Vec<u8>, bytes: &[u8])
    ensures
        final(out)@ == old(out)@ + bytes@,
{
    let mut i: usize = 0;
    while i < bytes.len()
        invariant
            i <= bytes@.len(),
            out@ == old(out)@ + bytes@.subrange(0, i as int),
        decreases bytes@.len() - i,
    {
        out.push(bytes[i]);
        i += 1;
        assert(out@ =~= old(out)@ + bytes@.subrange(0, i as int));
    }
    assert(bytes@.subrange(0, bytes@.len() as int) =~= bytes@);
}

} // verus!
