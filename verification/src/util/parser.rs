use vstd::prelude::*;
use vstd::utf8::*;

use crate::commands::command_req::CommandType;
use crate::commands::command_res::ResType;

verus! {

broadcast use vstd::utf8::encode_utf8_valid_utf8, vstd::utf8::encode_utf8_decode_utf8;

// ---------------------------------------------------------------------------
// Errors and results
// ---------------------------------------------------------------------------
/// Errors found while decoding bytes received from a server.
#[derive(Debug, Clone, Copy, PartialEq, Eq, Structural)]
pub enum ProtoError {
    /// The input ended before the value was complete.
    UnexpectedEof,
    /// A framing byte (`+`, `$`, `@` or `*`) was expected.
    ExpectedMarker { expected: u8, found: u8 },
    /// A type tag following a framing byte had the wrong value.
    ExpectedType { expected: u8, found: u8 },
    /// A string was not valid UTF-8.
    InvalidUtf8,
    /// A response frame did not start with two newline bytes.
    BadFrameStart,
    /// A response frame carried a protocol version other than 1.
    UnsupportedVersion { found: u8 },
    /// A response named a command that this client does not know.
    UnknownCommand,
    /// Decoding of this kind of message is not supported.
    Unsupported,
}

/// The kind of I/O failure that a decoding error is reported as by a reader
/// of a connection.
#[derive(Debug, Clone, Copy, PartialEq, Eq, Structural)]
pub enum ErrorClass {
    /// The connection ended inside a value.
    UnexpectedEof,
    /// The bytes are not a valid message.
    InvalidData,
    /// The message cannot be decoded by this client.
    Unsupported,
}

impl ProtoError {
    /// Running out of input is an unexpected end, an unsupported decoding is
    /// unsupported, and every other error is invalid data.
    pub open spec fn class_of(self) -> ErrorClass {
        match self {
            ProtoError::UnexpectedEof => ErrorClass::UnexpectedEof,
            ProtoError::Unsupported => ErrorClass::Unsupported,
            _ => ErrorClass::InvalidData,
        }
    }

    /// The kind of I/O failure this error is reported as.
    pub fn class(&self) -> (r: ErrorClass)
        ensures
            r == self.class_of(),
    {
        match self {
            ProtoError::UnexpectedEof => ErrorClass::UnexpectedEof,
            ProtoError::Unsupported => ErrorClass::Unsupported,
            _ => ErrorClass::InvalidData,
        }
    }
}

/// What a decoder gives back: the value, as its model, and the position just
/// after it; or the error.
pub type SpecRes<T> = Result<(T, int), ProtoError>;

/// An executable decoding result agrees with the model result `s`.
pub open spec fn agrees<T: DeepView>(r: Result<(T, usize), ProtoError>, s: SpecRes<T::V>) -> bool {
    match r {
        Ok((v, n)) => s == Ok::<(T::V, int), ProtoError>((v.deep_view(), n as int)),
        Err(e) => s == Err::<(T::V, int), ProtoError>(e),
    }
}

/// A decoding result that more input could not change: a value or an error
/// other than running out of input.
pub open spec fn decided<T>(r: SpecRes<T>) -> bool {
    match r {
        Err(ProtoError::UnexpectedEof) => false,
        _ => true,
    }
}

// ---------------------------------------------------------------------------
// Framing bytes and type tags
// ---------------------------------------------------------------------------
/// `@`: a number follows.
pub open spec fn number_marker() -> u8 {
    0x40
}

/// `+`: a string of at most 255 bytes follows.
pub open spec fn small_marker() -> u8 {
    0x2b
}

/// `$`: a string with a four byte length follows.
pub open spec fn bulk_marker() -> u8 {
    0x24
}

/// `*`: an array follows.
pub open spec fn array_marker() -> u8 {
    0x2a
}

/// Element types of arrays; their numbers also tag single numbers.
#[derive(Debug, Clone, Copy, PartialEq, Eq, Structural)]
pub enum ArrType {
    Txt,
    I8,
    I16,
    I32,
    I64,
    U8,
    U16,
    U32,
    U64,
}

impl ArrType {
    /// The number that stands for the type on the wire.
    pub open spec fn code(self) -> u8 {
        match self {
            ArrType::Txt => 23,
            ArrType::I8 => 1,
            ArrType::I16 => 2,
            ArrType::I32 => 4,
            ArrType::I64 => 5,
            ArrType::U8 => 11,
            ArrType::U16 => 12,
            ArrType::U32 => 14,
            ArrType::U64 => 15,
        }
    }
}

impl From<ArrType> for u8 {
    fn from(value: ArrType) -> (r: u8) {
        match value {
            ArrType::Txt => 23,
            ArrType::I8 => 1,
            ArrType::I16 => 2,
            ArrType::I32 => 4,
            ArrType::I64 => 5,
            ArrType::U8 => 11,
            ArrType::U16 => 12,
            ArrType::U32 => 14,
            ArrType::U64 => 15,
        }
    }
}

impl vstd::std_specs::convert::FromSpecImpl<ArrType> for u8 {
    open spec fn obeys_from_spec() -> bool {
        true
    }

    open spec fn from_spec(v: ArrType) -> u8 {
        v.code()
    }
}

// ---------------------------------------------------------------------------
// Big-endian integers
// ---------------------------------------------------------------------------
/// Big-endian bytes of a `u16`.
pub open spec fn be_u16(v: u16) -> Seq<u8> {
    seq![(v >> 8u16) as u8, v as u8]
}

/// Big-endian bytes of a `u32`.
pub open spec fn be_u32(v: u32) -> Seq<u8> {
    seq![(v >> 24u32) as u8, (v >> 16u32) as u8, (v >> 8u32) as u8, v as u8]
}

/// Big-endian bytes of a `u64`.
pub open spec fn be_u64(v: u64) -> Seq<u8> {
    seq![
        (v >> 56u64) as u8,
        (v >> 48u64) as u8,
        (v >> 40u64) as u8,
        (v >> 32u64) as u8,
        (v >> 24u64) as u8,
        (v >> 16u64) as u8,
        (v >> 8u64) as u8,
        v as u8,
    ]
}

/// The `u16` whose big-endian bytes start at `p` in `s`.
pub open spec fn from_be_u16(s: Seq<u8>, p: int) -> u16 {
    ((s[p] as u16) << 8u16) | (s[p + 1] as u16)
}

/// The `u32` whose big-endian bytes start at `p` in `s`.
pub open spec fn from_be_u32(s: Seq<u8>, p: int) -> u32 {
    ((s[p] as u32) << 24u32) | ((s[p + 1] as u32) << 16u32) | ((s[p + 2] as u32) << 8u32) | (s[p
        + 3] as u32)
}

/// The `u64` whose big-endian bytes start at `p` in `s`.
pub open spec fn from_be_u64(s: Seq<u8>, p: int) -> u64 {
    ((s[p] as u64) << 56u64) | ((s[p + 1] as u64) << 48u64) | ((s[p + 2] as u64) << 40u64) | ((s[p
        + 3] as u64) << 32u64) | ((s[p + 4] as u64) << 24u64) | ((s[p + 5] as u64) << 16u64) | ((s[p
        + 6] as u64) << 8u64) | (s[p + 7] as u64)
}

proof fn lemma_be_u16_roundtrip(s: Seq<u8>, p: int, v: u16)
    requires
        0 <= p,
        p + 2 <= s.len(),
        s.subrange(p, p + 2) == be_u16(v),
    ensures
        from_be_u16(s, p) == v,
{
    assert(s[p] == s.subrange(p, p + 2)[0]);
    assert(s[p + 1] == s.subrange(p, p + 2)[1]);
    assert(((((v >> 8u16) as u8) as u16) << 8u16) | ((v as u8) as u16) == v) by (bit_vector);
}

proof fn lemma_be_u32_roundtrip(s: Seq<u8>, p: int, v: u32)
    requires
        0 <= p,
        p + 4 <= s.len(),
        s.subrange(p, p + 4) == be_u32(v),
    ensures
        from_be_u32(s, p) == v,
{
    let t = s.subrange(p, p + 4);
    assert(s[p] == t[0] && s[p + 1] == t[1] && s[p + 2] == t[2] && s[p + 3] == t[3]);
    assert(((((v >> 24u32) as u8) as u32) << 24u32) | ((((v >> 16u32) as u8) as u32) << 16u32)
        | ((((v >> 8u32) as u8) as u32) << 8u32) | ((v as u8) as u32) == v) by (bit_vector);
}

proof fn lemma_be_u64_roundtrip(s: Seq<u8>, p: int, v: u64)
    requires
        0 <= p,
        p + 8 <= s.len(),
        s.subrange(p, p + 8) == be_u64(v),
    ensures
        from_be_u64(s, p) == v,
{
    let t = s.subrange(p, p + 8);
    assert(s[p] == t[0] && s[p + 1] == t[1] && s[p + 2] == t[2] && s[p + 3] == t[3]);
    assert(s[p + 4] == t[4] && s[p + 5] == t[5] && s[p + 6] == t[6] && s[p + 7] == t[7]);
    assert(((((v >> 56u64) as u8) as u64) << 56u64) | ((((v >> 48u64) as u8) as u64) << 48u64)
        | ((((v >> 40u64) as u8) as u64) << 40u64) | ((((v >> 32u64) as u8) as u64) << 32u64)
        | ((((v >> 24u64) as u8) as u64) << 24u64) | ((((v >> 16u64) as u8) as u64) << 16u64)
        | ((((v >> 8u64) as u8) as u64) << 8u64) | ((v as u8) as u64) == v) by (bit_vector);
}

proof fn lemma_signed_casts(a: i16, b: i32, c: i64)
    ensures
        (a as u16) as i16 == a,
        (b as u32) as i32 == b,
        (c as u64) as i64 == c,
{
    assert((a as u16) as i16 == a) by (bit_vector);
    assert((b as u32) as i32 == b) by (bit_vector);
    assert((c as u64) as i64 == c) by (bit_vector);
}

fn push_be_u16(buf: &mut Vec<u8>, v: u16)
    ensures
        final(buf)@ == old(buf)@ + be_u16(v),
{
    buf.push((v >> 8u16) as u8);
    buf.push(v as u8);
    assert(buf@ =~= old(buf)@ + be_u16(v));
}

fn push_be_u32(buf: &mut Vec<u8>, v: u32)
    ensures
        final(buf)@ == old(buf)@ + be_u32(v),
{
    buf.push((v >> 24u32) as u8);
    buf.push((v >> 16u32) as u8);
    buf.push((v >> 8u32) as u8);
    buf.push(v as u8);
    assert(buf@ =~= old(buf)@ + be_u32(v));
}

fn push_be_u64(buf: &mut Vec<u8>, v: u64)
    ensures
        final(buf)@ == old(buf)@ + be_u64(v),
{
    buf.push((v >> 56u64) as u8);
    buf.push((v >> 48u64) as u8);
    buf.push((v >> 40u64) as u8);
    buf.push((v >> 32u64) as u8);
    buf.push((v >> 24u64) as u8);
    buf.push((v >> 16u64) as u8);
    buf.push((v >> 8u64) as u8);
    buf.push(v as u8);
    assert(buf@ =~= old(buf)@ + be_u64(v));
}

/// Appends every byte of `data`.
pub fn extend_bytes(buf: &mut Vec<u8>, data: &[u8])
    ensures
        final(buf)@ == old(buf)@ + data@,
{
    let mut i: usize = 0;
    while i < data.len()
        invariant
            0 <= i <= data@.len(),
            buf@ == old(buf)@ + data@.subrange(0, i as int),
        decreases data@.len() - i,
    {
        buf.push(data[i]);
        i = i + 1;
        assert(buf@ =~= old(buf)@ + data@.subrange(0, i as int));
    }
    assert(data@.subrange(0, data@.len() as int) =~= data@);
}

/// Copies the bytes of `buf` between `start` and `end`.
pub fn copy_range(buf: &[u8], start: usize, end: usize) -> (r: Vec<u8>)
    requires
        start <= end <= buf@.len(),
    ensures
        r@ == buf@.subrange(start as int, end as int),
{
    let mut out: Vec<u8> = Vec::new();
    let mut i = start;
    while i < end
        invariant
            start <= i <= end <= buf@.len(),
            out@ == buf@.subrange(start as int, i as int),
        decreases end - i,
    {
        out.push(buf[i]);
        i = i + 1;
        assert(out@ =~= buf@.subrange(start as int, i as int));
    }
    out
}

// ---------------------------------------------------------------------------
// Numbers: `@`, the type tag, then the big-endian value
// ---------------------------------------------------------------------------
/// The encoding of a number: `@`, its type tag, then its bytes.
pub open spec fn number_bytes(tag: u8, payload: Seq<u8>) -> Seq<u8> {
    seq![number_marker(), tag] + payload
}

pub open spec fn i8_bytes(v: i8) -> Seq<u8> {
    number_bytes(1, seq![v as u8])
}

pub open spec fn i16_bytes(v: i16) -> Seq<u8> {
    number_bytes(2, be_u16(v as u16))
}

pub open spec fn i32_bytes(v: i32) -> Seq<u8> {
    number_bytes(4, be_u32(v as u32))
}

pub open spec fn i64_bytes(v: i64) -> Seq<u8> {
    number_bytes(5, be_u64(v as u64))
}

pub open spec fn u8_bytes(v: u8) -> Seq<u8> {
    number_bytes(11, seq![v])
}

pub open spec fn u16_bytes(v: u16) -> Seq<u8> {
    number_bytes(12, be_u16(v))
}

pub open spec fn u32_bytes(v: u32) -> Seq<u8> {
    number_bytes(14, be_u32(v))
}

pub open spec fn u64_bytes(v: u64) -> Seq<u8> {
    number_bytes(15, be_u64(v))
}

fn append_number_header(buf: &mut Vec<u8>, tag: u8)
    ensures
        final(buf)@ == old(buf)@ + seq![number_marker(), tag],
{
    buf.push(0x40u8);
    buf.push(tag);
    assert(buf@ =~= old(buf)@ + seq![number_marker(), tag]);
}

pub fn append_i8(buf: &mut Vec<u8>, val: i8)
    ensures
        final(buf)@ == old(buf)@ + i8_bytes(val),
{
    append_number_header(buf, 1);
    buf.push(val as u8);
    assert(buf@ =~= old(buf)@ + i8_bytes(val));
}

pub fn append_i16(buf: &mut Vec<u8>, val: i16)
    ensures
        final(buf)@ == old(buf)@ + i16_bytes(val),
{
    append_number_header(buf, 2);
    push_be_u16(buf, val as u16);
    assert(buf@ =~= old(buf)@ + i16_bytes(val));
}

pub fn append_i32(buf: &mut Vec<u8>, val: i32)
    ensures
        final(buf)@ == old(buf)@ + i32_bytes(val),
{
    append_number_header(buf, 4);
    push_be_u32(buf, val as u32);
    assert(buf@ =~= old(buf)@ + i32_bytes(val));
}

pub fn append_i64(buf: &mut Vec<u8>, val: i64)
    ensures
        final(buf)@ == old(buf)@ + i64_bytes(val),
{
    append_number_header(buf, 5);
    push_be_u64(buf, val as u64);
    assert(buf@ =~= old(buf)@ + i64_bytes(val));
}

pub fn append_u8(buf: &mut Vec<u8>, val: u8)
    ensures
        final(buf)@ == old(buf)@ + u8_bytes(val),
{
    append_number_header(buf, 11);
    buf.push(val);
    assert(buf@ =~= old(buf)@ + u8_bytes(val));
}

pub fn append_u16(buf: &mut Vec<u8>, val: u16)
    ensures
        final(buf)@ == old(buf)@ + u16_bytes(val),
{
    append_number_header(buf, 12);
    push_be_u16(buf, val);
    assert(buf@ =~= old(buf)@ + u16_bytes(val));
}

pub fn append_u32(buf: &mut Vec<u8>, val: u32)
    ensures
        final(buf)@ == old(buf)@ + u32_bytes(val),
{
    append_number_header(buf, 14);
    push_be_u32(buf, val);
    assert(buf@ =~= old(buf)@ + u32_bytes(val));
}

pub fn append_u64(buf: &mut Vec<u8>, val: u64)
    ensures
        final(buf)@ == old(buf)@ + u64_bytes(val),
{
    append_number_header(buf, 15);
    push_be_u64(buf, val);
    assert(buf@ =~= old(buf)@ + u64_bytes(val));
}

/// Decodes `@` and the type tag `tag`; gives the position after them.
pub open spec fn spec_number_header(s: Seq<u8>, pos: int, tag: u8) -> Result<int, ProtoError> {
    if pos >= s.len() {
        Err(ProtoError::UnexpectedEof)
    } else if s[pos] != number_marker() {
        Err(ProtoError::ExpectedMarker { expected: number_marker(), found: s[pos] })
    } else if pos + 1 >= s.len() {
        Err(ProtoError::UnexpectedEof)
    } else if s[pos + 1] != tag {
        Err(ProtoError::ExpectedType { expected: tag, found: s[pos + 1] })
    } else {
        Ok(pos + 2)
    }
}

pub open spec fn spec_read_u8(s: Seq<u8>, pos: int) -> SpecRes<u8> {
    match spec_number_header(s, pos, 11) {
        Err(e) => Err(e),
        Ok(p) => if p + 1 > s.len() {
            Err(ProtoError::UnexpectedEof)
        } else {
            Ok((s[p], p + 1))
        },
    }
}

pub open spec fn spec_read_u16(s: Seq<u8>, pos: int) -> SpecRes<u16> {
    match spec_number_header(s, pos, 12) {
        Err(e) => Err(e),
        Ok(p) => if p + 2 > s.len() {
            Err(ProtoError::UnexpectedEof)
        } else {
            Ok((from_be_u16(s, p), p + 2))
        },
    }
}

pub open spec fn spec_read_i16(s: Seq<u8>, pos: int) -> SpecRes<i16> {
    match spec_number_header(s, pos, 2) {
        Err(e) => Err(e),
        Ok(p) => if p + 2 > s.len() {
            Err(ProtoError::UnexpectedEof)
        } else {
            Ok((from_be_u16(s, p) as i16, p + 2))
        },
    }
}

pub open spec fn spec_read_u32(s: Seq<u8>, pos: int) -> SpecRes<u32> {
    match spec_number_header(s, pos, 14) {
        Err(e) => Err(e),
        Ok(p) => if p + 4 > s.len() {
            Err(ProtoError::UnexpectedEof)
        } else {
            Ok((from_be_u32(s, p), p + 4))
        },
    }
}

pub open spec fn spec_read_i32(s: Seq<u8>, pos: int) -> SpecRes<i32> {
    match spec_number_header(s, pos, 4) {
        Err(e) => Err(e),
        Ok(p) => if p + 4 > s.len() {
            Err(ProtoError::UnexpectedEof)
        } else {
            Ok((from_be_u32(s, p) as i32, p + 4))
        },
    }
}

pub open spec fn spec_read_u64(s: Seq<u8>, pos: int) -> SpecRes<u64> {
    match spec_number_header(s, pos, 15) {
        Err(e) => Err(e),
        Ok(p) => if p + 8 > s.len() {
            Err(ProtoError::UnexpectedEof)
        } else {
            Ok((from_be_u64(s, p), p + 8))
        },
    }
}

pub open spec fn spec_read_i64(s: Seq<u8>, pos: int) -> SpecRes<i64> {
    match spec_number_header(s, pos, 5) {
        Err(e) => Err(e),
        Ok(p) => if p + 8 > s.len() {
            Err(ProtoError::UnexpectedEof)
        } else {
            Ok((from_be_u64(s, p) as i64, p + 8))
        },
    }
}

fn read_number_header(buf: &[u8], pos: usize, tag: u8) -> (r: Result<usize, ProtoError>)
    ensures
        match r {
            Ok(p) => spec_number_header(buf@, pos as int, tag) == Ok::<int, ProtoError>(p as int),
            Err(e) => spec_number_header(buf@, pos as int, tag) == Err::<int, ProtoError>(e),
        },
{
    if pos >= buf.len() {
        return Err(ProtoError::UnexpectedEof);
    }
    if buf[pos] != 0x40u8 {
        return Err(ProtoError::ExpectedMarker { expected: 0x40u8, found: buf[pos] });
    }
    if pos + 1 >= buf.len() {
        return Err(ProtoError::UnexpectedEof);
    }
    if buf[pos + 1] != tag {
        return Err(ProtoError::ExpectedType { expected: tag, found: buf[pos + 1] });
    }
    Ok(pos + 2)
}

pub fn read_u8(buf: &[u8], pos: usize) -> (r: Result<(u8, usize), ProtoError>)
    ensures
        agrees(r, spec_read_u8(buf@, pos as int)),
{
    let p = read_number_header(buf, pos, 11)?;
    if p >= buf.len() {
        return Err(ProtoError::UnexpectedEof);
    }
    Ok((buf[p], p + 1))
}

pub fn read_u16(buf: &[u8], pos: usize) -> (r: Result<(u16, usize), ProtoError>)
    ensures
        agrees(r, spec_read_u16(buf@, pos as int)),
{
    let p = read_number_header(buf, pos, 12)?;
    if buf.len() - p < 2 {
        return Err(ProtoError::UnexpectedEof);
    }
    Ok((((buf[p] as u16) << 8u16) | (buf[p + 1] as u16), p + 2))
}

pub fn read_i16(buf: &[u8], pos: usize) -> (r: Result<(i16, usize), ProtoError>)
    ensures
        agrees(r, spec_read_i16(buf@, pos as int)),
{
    let p = read_number_header(buf, pos, 2)?;
    if buf.len() - p < 2 {
        return Err(ProtoError::UnexpectedEof);
    }
    let raw: u16 = ((buf[p] as u16) << 8u16) | (buf[p + 1] as u16);
    Ok((raw as i16, p + 2))
}

pub fn read_u32(buf: &[u8], pos: usize) -> (r: Result<(u32, usize), ProtoError>)
    ensures
        agrees(r, spec_read_u32(buf@, pos as int)),
{
    let p = read_number_header(buf, pos, 14)?;
    if buf.len() - p < 4 {
        return Err(ProtoError::UnexpectedEof);
    }
    Ok((decode_be_u32(buf, p), p + 4))
}

pub fn read_i32(buf: &[u8], pos: usize) -> (r: Result<(i32, usize), ProtoError>)
    ensures
        agrees(r, spec_read_i32(buf@, pos as int)),
{
    let p = read_number_header(buf, pos, 4)?;
    if buf.len() - p < 4 {
        return Err(ProtoError::UnexpectedEof);
    }
    Ok((decode_be_u32(buf, p) as i32, p + 4))
}

pub fn read_u64(buf: &[u8], pos: usize) -> (r: Result<(u64, usize), ProtoError>)
    ensures
        agrees(r, spec_read_u64(buf@, pos as int)),
{
    let p = read_number_header(buf, pos, 15)?;
    if buf.len() - p < 8 {
        return Err(ProtoError::UnexpectedEof);
    }
    Ok((decode_be_u64(buf, p), p + 8))
}

pub fn read_i64(buf: &[u8], pos: usize) -> (r: Result<(i64, usize), ProtoError>)
    ensures
        agrees(r, spec_read_i64(buf@, pos as int)),
{
    let p = read_number_header(buf, pos, 5)?;
    if buf.len() - p < 8 {
        return Err(ProtoError::UnexpectedEof);
    }
    Ok((decode_be_u64(buf, p) as i64, p + 8))
}

fn decode_be_u16(buf: &[u8], p: usize) -> (r: u16)
    requires
        p + 2 <= buf@.len(),
    ensures
        r == from_be_u16(buf@, p as int),
{
    ((buf[p] as u16) << 8u16) | (buf[p + 1] as u16)
}

fn decode_be_u32(buf: &[u8], p: usize) -> (r: u32)
    requires
        p + 4 <= buf@.len(),
    ensures
        r == from_be_u32(buf@, p as int),
{
    ((buf[p] as u32) << 24u32) | ((buf[p + 1] as u32) << 16u32) | ((buf[p + 2] as u32) << 8u32) | (
    buf[p + 3] as u32)
}

fn decode_be_u64(buf: &[u8], p: usize) -> (r: u64)
    requires
        p + 8 <= buf@.len(),
    ensures
        r == from_be_u64(buf@, p as int),
{
    ((buf[p] as u64) << 56u64) | ((buf[p + 1] as u64) << 48u64) | ((buf[p + 2] as u64) << 40u64) | ((
    buf[p + 3] as u64) << 32u64) | ((buf[p + 4] as u64) << 24u64) | ((buf[p + 5] as u64) << 16u64)
        | ((buf[p + 6] as u64) << 8u64) | (buf[p + 7] as u64)
}


// ---------------------------------------------------------------------------
// Strings: `+` and a one byte length, or `$` and a four byte length
// ---------------------------------------------------------------------------
/// A string of at most 255 bytes: `+`, the length as one byte, the bytes.
pub open spec fn small_string_bytes(b: Seq<u8>) -> Seq<u8> {
    seq![small_marker(), b.len() as u8] + b
}

/// A string: `$`, the length as four big-endian bytes, the bytes.
pub open spec fn bulk_string_bytes(b: Seq<u8>) -> Seq<u8> {
    seq![bulk_marker()] + be_u32(b.len() as u32) + b
}

/// The UTF-8 bytes of a text.
pub open spec fn text_bytes(t: Seq<char>) -> Seq<u8> {
    encode_utf8(t)
}

/// Appends a small string made of raw bytes.
pub fn append_small_bytes(buf: &mut Vec<u8>, data: &[u8])
    requires
        data@.len() <= 255,
    ensures
        final(buf)@ == old(buf)@ + small_string_bytes(data@),
{
    buf.push(0x2bu8);
    buf.push(data.len() as u8);
    extend_bytes(buf, data);
    assert(buf@ =~= old(buf)@ + small_string_bytes(data@));
}

/// Appends `data` as a small string. Strings longer than 255 bytes have no
/// small encoding.
pub fn append_small_string(buf: &mut Vec<u8>, data: &str)
    requires
        text_bytes(data@).len() <= 255,
    ensures
        final(buf)@ == old(buf)@ + small_string_bytes(text_bytes(data@)),
{
    let bytes = data.as_bytes();
    append_small_bytes(buf, bytes);
}

/// Appends `data` as a bulk string. The length field holds the byte length
/// modulo 2^32.
pub fn append_bulk_string(buf: &mut Vec<u8>, data: &str)
    ensures
        final(buf)@ == old(buf)@ + bulk_string_bytes(text_bytes(data@)),
{
    let bytes = data.as_bytes();
    buf.push(0x24u8);
    push_be_u32(buf, bytes.len() as u32);
    extend_bytes(buf, bytes);
    assert(buf@ =~= old(buf)@ + bulk_string_bytes(text_bytes(data@)));
}

/// The bulk strings of `texts`, one after the other.
pub open spec fn bulk_strings_bytes(texts: Seq<Seq<char>>) -> Seq<u8>
    decreases texts.len(),
{
    if texts.len() == 0 {
        seq![]
    } else {
        bulk_strings_bytes(texts.drop_last()) + bulk_string_bytes(text_bytes(texts.last()))
    }
}

/// An array of texts: `*`, the count as four big-endian bytes, the type tag
/// 23, then each text as a bulk string.
pub open spec fn txt_array_bytes(texts: Seq<Seq<char>>) -> Seq<u8> {
    seq![array_marker()] + be_u32(texts.len() as u32) + seq![ArrType::Txt.code()]
        + bulk_strings_bytes(texts)
}

/// The texts held by a sequence of strings.
pub open spec fn texts_of(data: Seq<String>) -> Seq<Seq<char>> {
    data.map_values(|s: String| s@)
}

pub fn append_txt_array(buf: &mut Vec<u8>, data: &[String])
    ensures
        final(buf)@ == old(buf)@ + txt_array_bytes(texts_of(data@)),
{
    let ghost texts = texts_of(data@);
    buf.push(0x2au8);
    push_be_u32(buf, data.len() as u32);
    buf.push(23u8);
    let ghost start = buf@;
    let mut i: usize = 0;
    while i < data.len()
        invariant
            0 <= i <= data@.len(),
            texts == texts_of(data@),
            buf@ == start + bulk_strings_bytes(texts.subrange(0, i as int)),
        decreases data@.len() - i,
    {
        append_bulk_string(buf, data[i].as_str());
        proof {
            let next = texts.subrange(0, i + 1);
            assert(next.drop_last() =~= texts.subrange(0, i as int));
            assert(next.last() == data@[i as int]@);
        }
        i = i + 1;
        assert(buf@ =~= start + bulk_strings_bytes(texts.subrange(0, i as int)));
    }
    assert(texts.subrange(0, data@.len() as int) =~= texts);
    assert(buf@ =~= old(buf)@ + txt_array_bytes(texts));
}

/// std's `String::from_utf8`, kept as an `Option`. Stated: a string comes
/// back exactly when the bytes are valid UTF-8, and its characters are those
/// the bytes encode.
#[verifier::external_body]
pub(crate) fn string_from_utf8(bytes: Vec<u8>) -> (r: Option<String>)
    ensures
        r is Some <==> valid_utf8(bytes@),
        r matches Some(s) ==> s@ == decode_utf8(bytes@),
{
    String::from_utf8(bytes).ok()
}

/// Decodes a small string as raw bytes.
pub open spec fn spec_read_small_bytes(s: Seq<u8>, pos: int) -> SpecRes<Seq<u8>> {
    if pos >= s.len() {
        Err(ProtoError::UnexpectedEof)
    } else if s[pos] != small_marker() {
        Err(ProtoError::ExpectedMarker { expected: small_marker(), found: s[pos] })
    } else if pos + 1 >= s.len() {
        Err(ProtoError::UnexpectedEof)
    } else if pos + 2 + s[pos + 1] > s.len() {
        Err(ProtoError::UnexpectedEof)
    } else {
        Ok((s.subrange(pos + 2, pos + 2 + s[pos + 1]), pos + 2 + s[pos + 1]))
    }
}

/// Decodes the bytes of a string into its text.
pub open spec fn utf8_text(r: SpecRes<Seq<u8>>) -> SpecRes<Seq<char>> {
    match r {
        Err(e) => Err(e),
        Ok((b, p)) => if valid_utf8(b) {
            Ok((decode_utf8(b), p))
        } else {
            Err(ProtoError::InvalidUtf8)
        },
    }
}

pub open spec fn spec_read_small_string(s: Seq<u8>, pos: int) -> SpecRes<Seq<char>> {
    utf8_text(spec_read_small_bytes(s, pos))
}

/// Decodes a bulk string as raw bytes.
pub open spec fn spec_read_bulk_bytes(s: Seq<u8>, pos: int) -> SpecRes<Seq<u8>> {
    if pos >= s.len() {
        Err(ProtoError::UnexpectedEof)
    } else if s[pos] != bulk_marker() {
        Err(ProtoError::ExpectedMarker { expected: bulk_marker(), found: s[pos] })
    } else if pos + 5 > s.len() {
        Err(ProtoError::UnexpectedEof)
    } else if pos + 5 + from_be_u32(s, pos + 1) > s.len() {
        Err(ProtoError::UnexpectedEof)
    } else {
        Ok(
            (
                s.subrange(pos + 5, pos + 5 + from_be_u32(s, pos + 1)),
                pos + 5 + from_be_u32(s, pos + 1),
            ),
        )
    }
}

pub open spec fn spec_read_bulk_string(s: Seq<u8>, pos: int) -> SpecRes<Seq<char>> {
    utf8_text(spec_read_bulk_bytes(s, pos))
}

/// Decodes a small string and gives back its raw bytes.
pub fn read_small_bytes(buf: &[u8], pos: usize) -> (r: Result<(Vec<u8>, usize), ProtoError>)
    ensures
        agrees(r, spec_read_small_bytes(buf@, pos as int)),
{
    if pos >= buf.len() {
        return Err(ProtoError::UnexpectedEof);
    }
    if buf[pos] != 0x2bu8 {
        return Err(ProtoError::ExpectedMarker { expected: 0x2bu8, found: buf[pos] });
    }
    if pos + 1 >= buf.len() {
        return Err(ProtoError::UnexpectedEof);
    }
    let n = buf[pos + 1] as usize;
    if buf.len() - (pos + 2) < n {
        return Err(ProtoError::UnexpectedEof);
    }
    let bytes = copy_range(buf, pos + 2, pos + 2 + n);
    assert(bytes.deep_view() =~= bytes@);
    Ok((bytes, pos + 2 + n))
}

fn bytes_to_text(r: Result<(Vec<u8>, usize), ProtoError>, Ghost(m): Ghost<SpecRes<Seq<u8>>>) -> (t:
    Result<(String, usize), ProtoError>)
    requires
        agrees(r, m),
    ensures
        agrees(t, utf8_text(m)),
{
    match r {
        Err(e) => Err(e),
        Ok((bytes, p)) => {
            assert(bytes.deep_view() =~= bytes@);
            match string_from_utf8(bytes) {
                Some(text) => Ok((text, p)),
                None => Err(ProtoError::InvalidUtf8),
            }
        },
    }
}

pub fn read_small_string(buf: &[u8], pos: usize) -> (r: Result<(String, usize), ProtoError>)
    ensures
        agrees(r, spec_read_small_string(buf@, pos as int)),
{
    bytes_to_text(read_small_bytes(buf, pos), Ghost(spec_read_small_bytes(buf@, pos as int)))
}

/// Decodes a bulk string and gives back its raw bytes.
pub fn read_bulk_bytes(buf: &[u8], pos: usize) -> (r: Result<(Vec<u8>, usize), ProtoError>)
    ensures
        agrees(r, spec_read_bulk_bytes(buf@, pos as int)),
{
    if pos >= buf.len() {
        return Err(ProtoError::UnexpectedEof);
    }
    if buf[pos] != 0x24u8 {
        return Err(ProtoError::ExpectedMarker { expected: 0x24u8, found: buf[pos] });
    }
    if buf.len() - pos < 5 {
        return Err(ProtoError::UnexpectedEof);
    }
    let n = decode_be_u32(buf, pos + 1) as usize;
    if buf.len() - (pos + 5) < n {
        return Err(ProtoError::UnexpectedEof);
    }
    let bytes = copy_range(buf, pos + 5, pos + 5 + n);
    assert(bytes.deep_view() =~= bytes@);
    Ok((bytes, pos + 5 + n))
}

pub fn read_bulk_string(buf: &[u8], pos: usize) -> (r: Result<(String, usize), ProtoError>)
    ensures
        agrees(r, spec_read_bulk_string(buf@, pos as int)),
{
    bytes_to_text(read_bulk_bytes(buf, pos), Ghost(spec_read_bulk_bytes(buf@, pos as int)))
}


// ---------------------------------------------------------------------------
// Arrays: `*`, the count as four big-endian bytes, the element type, elements
// ---------------------------------------------------------------------------
/// Decodes the head of an array whose elements have type tag `tag`: the
/// element count and the position of the first element.
pub open spec fn spec_array_header(s: Seq<u8>, pos: int, tag: u8) -> Result<(u32, int), ProtoError> {
    if pos >= s.len() {
        Err(ProtoError::UnexpectedEof)
    } else if s[pos] != array_marker() {
        Err(ProtoError::ExpectedMarker { expected: array_marker(), found: s[pos] })
    } else if pos + 6 > s.len() {
        Err(ProtoError::UnexpectedEof)
    } else if s[pos + 5] != tag {
        Err(ProtoError::ExpectedType { expected: tag, found: s[pos + 5] })
    } else {
        Ok((from_be_u32(s, pos + 1), pos + 6))
    }
}

fn read_array_header(buf: &[u8], pos: usize, tag: u8) -> (r: Result<(u32, usize), ProtoError>)
    ensures
        match r {
            Ok((n, p)) => spec_array_header(buf@, pos as int, tag) == Ok::<(u32, int), ProtoError>(
                (n, p as int),
            ),
            Err(e) => spec_array_header(buf@, pos as int, tag) == Err::<(u32, int), ProtoError>(e),
        },
{
    if pos >= buf.len() {
        return Err(ProtoError::UnexpectedEof);
    }
    if buf[pos] != 0x2au8 {
        return Err(ProtoError::ExpectedMarker { expected: 0x2au8, found: buf[pos] });
    }
    if buf.len() - pos < 6 {
        return Err(ProtoError::UnexpectedEof);
    }
    if buf[pos + 5] != tag {
        return Err(ProtoError::ExpectedType { expected: tag, found: buf[pos + 5] });
    }
    Ok((decode_be_u32(buf, pos + 1), pos + 6))
}

/// Decodes `count` bulk strings one after the other, starting at `p`.
pub open spec fn spec_read_bulk_strings(s: Seq<u8>, p: int, count: nat) -> SpecRes<Seq<Seq<char>>>
    decreases count,
{
    if count == 0 {
        Ok((seq![], p))
    } else {
        match spec_read_bulk_strings(s, p, (count - 1) as nat) {
            Err(e) => Err(e),
            Ok((texts, q)) => match spec_read_bulk_string(s, q) {
                Err(e) => Err(e),
                Ok((text, q2)) => Ok((texts.push(text), q2)),
            },
        }
    }
}

pub open spec fn spec_read_txt_array(s: Seq<u8>, pos: int) -> SpecRes<Seq<Seq<char>>> {
    match spec_array_header(s, pos, ArrType::Txt.code()) {
        Err(e) => Err(e),
        Ok((n, p)) => spec_read_bulk_strings(s, p, n as nat),
    }
}

proof fn lemma_bulk_strings_error_persists(s: Seq<u8>, p: int, k: nat, m: nat, e: ProtoError)
    requires
        k <= m,
        spec_read_bulk_strings(s, p, k) == Err::<(Seq<Seq<char>>, int), ProtoError>(e),
    ensures
        spec_read_bulk_strings(s, p, m) == Err::<(Seq<Seq<char>>, int), ProtoError>(e),
    decreases m - k,
{
    if k < m {
        lemma_bulk_strings_error_persists(s, p, k + 1, m, e);
    }
}

pub fn read_txt_array(buf: &[u8], pos: usize) -> (r: Result<(Vec<String>, usize), ProtoError>)
    ensures
        agrees(r, spec_read_txt_array(buf@, pos as int)),
{
    let (n, p) = read_array_header(buf, pos, 23u8)?;
    let mut arr: Vec<String> = Vec::new();
    let mut q = p;
    let mut i: u32 = 0;
    assert(arr.deep_view() =~= Seq::<Seq<char>>::empty());
    while i < n
        invariant
            0 <= i <= n,
            spec_array_header(buf@, pos as int, 23u8) == Ok::<(u32, int), ProtoError>((n, p as int)),
            spec_read_bulk_strings(buf@, p as int, i as nat) == Ok::<
                (Seq<Seq<char>>, int),
                ProtoError,
            >((arr.deep_view(), q as int)),
        decreases n - i,
    {
        match read_bulk_string(buf, q) {
            Err(e) => {
                proof {
                    lemma_bulk_strings_error_persists(buf@, p as int, (i + 1) as nat, n as nat, e);
                }
                return Err(e);
            },
            Ok((text, q2)) => {
                let ghost before = arr.deep_view();
                arr.push(text);
                assert(arr.deep_view() =~= before.push(text@));
                q = q2;
                i = i + 1;
            },
        }
    }
    Ok((arr, q))
}

/// Decodes an array of `width`-byte big-endian numbers whose type tag is `tag`;
/// `elem` reads one element at a position.
pub open spec fn spec_read_fixed_array<T>(
    s: Seq<u8>,
    pos: int,
    tag: u8,
    width: int,
    elem: spec_fn(Seq<u8>, int) -> T,
) -> SpecRes<Seq<T>> {
    match spec_array_header(s, pos, tag) {
        Err(e) => Err(e),
        Ok((n, p)) => if p + width * n > s.len() {
            Err(ProtoError::UnexpectedEof)
        } else {
            Ok((Seq::new(n as nat, |i: int| elem(s, p + width * i)), p + width * n))
        },
    }
}

pub open spec fn spec_read_i16_array(s: Seq<u8>, pos: int) -> SpecRes<Seq<i16>> {
    spec_read_fixed_array(s, pos, 2, 2, |s: Seq<u8>, p: int| from_be_u16(s, p) as i16)
}

pub open spec fn spec_read_i32_array(s: Seq<u8>, pos: int) -> SpecRes<Seq<i32>> {
    spec_read_fixed_array(s, pos, 4, 4, |s: Seq<u8>, p: int| from_be_u32(s, p) as i32)
}

pub open spec fn spec_read_i64_array(s: Seq<u8>, pos: int) -> SpecRes<Seq<i64>> {
    spec_read_fixed_array(s, pos, 5, 8, |s: Seq<u8>, p: int| from_be_u64(s, p) as i64)
}

pub open spec fn spec_read_u8_array(s: Seq<u8>, pos: int) -> SpecRes<Seq<u8>> {
    spec_read_fixed_array(s, pos, 11, 1, |s: Seq<u8>, p: int| s[p])
}

pub open spec fn spec_read_u16_array(s: Seq<u8>, pos: int) -> SpecRes<Seq<u16>> {
    spec_read_fixed_array(s, pos, 12, 2, |s: Seq<u8>, p: int| from_be_u16(s, p))
}

pub open spec fn spec_read_u32_array(s: Seq<u8>, pos: int) -> SpecRes<Seq<u32>> {
    spec_read_fixed_array(s, pos, 14, 4, |s: Seq<u8>, p: int| from_be_u32(s, p))
}


pub fn read_i16_array(buf: &[u8], pos: usize) -> (r: Result<(Vec<i16>, usize), ProtoError>)
    ensures
        agrees(r, spec_read_i16_array(buf@, pos as int)),
{
    let (n, p) = read_array_header(buf, pos, 2u8)?;
    let ghost elem = |s: Seq<u8>, p: int| from_be_u16(s, p) as i16;
    let mut arr: Vec<i16> = Vec::new();
    let mut q = p;
    let mut i: u32 = 0;
    while i < n
        invariant
            0 <= i <= n,
            p <= q <= buf@.len(),
            q == p + 2 * i,
            spec_array_header(buf@, pos as int, 2u8) == Ok::<(u32, int), ProtoError>((n, p as int)),
            elem == (|s: Seq<u8>, p: int| from_be_u16(s, p) as i16),
            arr@ =~= Seq::new(i as nat, |j: int| elem(buf@, p + 2 * j)),
        decreases n - i,
    {
        if buf.len() - q < 2 {
            return Err(ProtoError::UnexpectedEof);
        }
        let v: i16 = decode_be_u16(buf, q) as i16;
        arr.push(v);
        q = q + 2;
        i = i + 1;
    }
    assert(arr.deep_view() =~= arr@);
    Ok((arr, q))
}

pub fn read_i32_array(buf: &[u8], pos: usize) -> (r: Result<(Vec<i32>, usize), ProtoError>)
    ensures
        agrees(r, spec_read_i32_array(buf@, pos as int)),
{
    let (n, p) = read_array_header(buf, pos, 4u8)?;
    let ghost elem = |s: Seq<u8>, p: int| from_be_u32(s, p) as i32;
    let mut arr: Vec<i32> = Vec::new();
    let mut q = p;
    let mut i: u32 = 0;
    while i < n
        invariant
            0 <= i <= n,
            p <= q <= buf@.len(),
            q == p + 4 * i,
            spec_array_header(buf@, pos as int, 4u8) == Ok::<(u32, int), ProtoError>((n, p as int)),
            elem == (|s: Seq<u8>, p: int| from_be_u32(s, p) as i32),
            arr@ =~= Seq::new(i as nat, |j: int| elem(buf@, p + 4 * j)),
        decreases n - i,
    {
        if buf.len() - q < 4 {
            return Err(ProtoError::UnexpectedEof);
        }
        let v: i32 = decode_be_u32(buf, q) as i32;
        arr.push(v);
        q = q + 4;
        i = i + 1;
    }
    assert(arr.deep_view() =~= arr@);
    Ok((arr, q))
}

pub fn read_i64_array(buf: &[u8], pos: usize) -> (r: Result<(Vec<i64>, usize), ProtoError>)
    ensures
        agrees(r, spec_read_i64_array(buf@, pos as int)),
{
    let (n, p) = read_array_header(buf, pos, 5u8)?;
    let ghost elem = |s: Seq<u8>, p: int| from_be_u64(s, p) as i64;
    let mut arr: Vec<i64> = Vec::new();
    let mut q = p;
    let mut i: u32 = 0;
    while i < n
        invariant
            0 <= i <= n,
            p <= q <= buf@.len(),
            q == p + 8 * i,
            spec_array_header(buf@, pos as int, 5u8) == Ok::<(u32, int), ProtoError>((n, p as int)),
            elem == (|s: Seq<u8>, p: int| from_be_u64(s, p) as i64),
            arr@ =~= Seq::new(i as nat, |j: int| elem(buf@, p + 8 * j)),
        decreases n - i,
    {
        if buf.len() - q < 8 {
            return Err(ProtoError::UnexpectedEof);
        }
        let v: i64 = decode_be_u64(buf, q) as i64;
        arr.push(v);
        q = q + 8;
        i = i + 1;
    }
    assert(arr.deep_view() =~= arr@);
    Ok((arr, q))
}

pub fn read_u8_array(buf: &[u8], pos: usize) -> (r: Result<(Vec<u8>, usize), ProtoError>)
    ensures
        agrees(r, spec_read_u8_array(buf@, pos as int)),
{
    let (n, p) = read_array_header(buf, pos, 11u8)?;
    let ghost elem = |s: Seq<u8>, p: int| s[p];
    let mut arr: Vec<u8> = Vec::new();
    let mut q = p;
    let mut i: u32 = 0;
    while i < n
        invariant
            0 <= i <= n,
            p <= q <= buf@.len(),
            q == p + 1 * i,
            spec_array_header(buf@, pos as int, 11u8) == Ok::<(u32, int), ProtoError>((n, p as int)),
            elem == (|s: Seq<u8>, p: int| s[p]),
            arr@ =~= Seq::new(i as nat, |j: int| elem(buf@, p + 1 * j)),
        decreases n - i,
    {
        if buf.len() - q < 1 {
            return Err(ProtoError::UnexpectedEof);
        }
        let v: u8 = buf[q];
        arr.push(v);
        q = q + 1;
        i = i + 1;
    }
    assert(arr.deep_view() =~= arr@);
    Ok((arr, q))
}

pub fn read_u16_array(buf: &[u8], pos: usize) -> (r: Result<(Vec<u16>, usize), ProtoError>)
    ensures
        agrees(r, spec_read_u16_array(buf@, pos as int)),
{
    let (n, p) = read_array_header(buf, pos, 12u8)?;
    let ghost elem = |s: Seq<u8>, p: int| from_be_u16(s, p);
    let mut arr: Vec<u16> = Vec::new();
    let mut q = p;
    let mut i: u32 = 0;
    while i < n
        invariant
            0 <= i <= n,
            p <= q <= buf@.len(),
            q == p + 2 * i,
            spec_array_header(buf@, pos as int, 12u8) == Ok::<(u32, int), ProtoError>((n, p as int)),
            elem == (|s: Seq<u8>, p: int| from_be_u16(s, p)),
            arr@ =~= Seq::new(i as nat, |j: int| elem(buf@, p + 2 * j)),
        decreases n - i,
    {
        if buf.len() - q < 2 {
            return Err(ProtoError::UnexpectedEof);
        }
        let v: u16 = decode_be_u16(buf, q);
        arr.push(v);
        q = q + 2;
        i = i + 1;
    }
    assert(arr.deep_view() =~= arr@);
    Ok((arr, q))
}

pub fn read_u32_array(buf: &[u8], pos: usize) -> (r: Result<(Vec<u32>, usize), ProtoError>)
    ensures
        agrees(r, spec_read_u32_array(buf@, pos as int)),
{
    let (n, p) = read_array_header(buf, pos, 14u8)?;
    let ghost elem = |s: Seq<u8>, p: int| from_be_u32(s, p);
    let mut arr: Vec<u32> = Vec::new();
    let mut q = p;
    let mut i: u32 = 0;
    while i < n
        invariant
            0 <= i <= n,
            p <= q <= buf@.len(),
            q == p + 4 * i,
            spec_array_header(buf@, pos as int, 14u8) == Ok::<(u32, int), ProtoError>((n, p as int)),
            elem == (|s: Seq<u8>, p: int| from_be_u32(s, p)),
            arr@ =~= Seq::new(i as nat, |j: int| elem(buf@, p + 4 * j)),
        decreases n - i,
    {
        if buf.len() - q < 4 {
            return Err(ProtoError::UnexpectedEof);
        }
        let v: u32 = decode_be_u32(buf, q);
        arr.push(v);
        q = q + 4;
        i = i + 1;
    }
    assert(arr.deep_view() =~= arr@);
    Ok((arr, q))
}


// ---------------------------------------------------------------------------
// Laws: what is appended reads back
// ---------------------------------------------------------------------------
/// Reading a `u8` where `append_u8` wrote one gives back the value and the
/// position just after it, whatever surrounds it.
pub proof fn law_u8_roundtrip(pre: Seq<u8>, v: u8, post: Seq<u8>)
    ensures
        spec_read_u8(pre + u8_bytes(v) + post, pre.len() as int) == Ok::<(u8, int), ProtoError>(
            (v, pre.len() as int + 3),
        ),
{
    let s = pre + u8_bytes(v) + post;
    let p = pre.len() as int;
    assert(s[p] == u8_bytes(v)[0] && s[p + 1] == u8_bytes(v)[1] && s[p + 2] == u8_bytes(v)[2]);
}

/// Reading a `u16` where `append_u16` wrote one gives back the value.
pub proof fn law_u16_roundtrip(pre: Seq<u8>, v: u16, post: Seq<u8>)
    ensures
        spec_read_u16(pre + u16_bytes(v) + post, pre.len() as int) == Ok::<(u16, int), ProtoError>(
            (v, pre.len() as int + 4),
        ),
{
    let s = pre + u16_bytes(v) + post;
    let p = pre.len() as int;
    assert(s[p] == u16_bytes(v)[0] && s[p + 1] == u16_bytes(v)[1]);
    assert(s.subrange(p + 2, p + 4) =~= be_u16(v));
    lemma_be_u16_roundtrip(s, p + 2, v);
}

/// Reading an `i16` where `append_i16` wrote one gives back the value.
pub proof fn law_i16_roundtrip(pre: Seq<u8>, v: i16, post: Seq<u8>)
    ensures
        spec_read_i16(pre + i16_bytes(v) + post, pre.len() as int) == Ok::<(i16, int), ProtoError>(
            (v, pre.len() as int + 4),
        ),
{
    let s = pre + i16_bytes(v) + post;
    let p = pre.len() as int;
    assert(s[p] == i16_bytes(v)[0] && s[p + 1] == i16_bytes(v)[1]);
    assert(s.subrange(p + 2, p + 4) =~= be_u16(v as u16));
    lemma_be_u16_roundtrip(s, p + 2, v as u16);
    lemma_signed_casts(v, 0, 0);
}

/// Reading a `u32` where `append_u32` wrote one gives back the value.
pub proof fn law_u32_roundtrip(pre: Seq<u8>, v: u32, post: Seq<u8>)
    ensures
        spec_read_u32(pre + u32_bytes(v) + post, pre.len() as int) == Ok::<(u32, int), ProtoError>(
            (v, pre.len() as int + 6),
        ),
{
    let s = pre + u32_bytes(v) + post;
    let p = pre.len() as int;
    assert(s[p] == u32_bytes(v)[0] && s[p + 1] == u32_bytes(v)[1]);
    assert(s.subrange(p + 2, p + 6) =~= be_u32(v));
    lemma_be_u32_roundtrip(s, p + 2, v);
}

/// Reading an `i32` where `append_i32` wrote one gives back the value.
pub proof fn law_i32_roundtrip(pre: Seq<u8>, v: i32, post: Seq<u8>)
    ensures
        spec_read_i32(pre + i32_bytes(v) + post, pre.len() as int) == Ok::<(i32, int), ProtoError>(
            (v, pre.len() as int + 6),
        ),
{
    let s = pre + i32_bytes(v) + post;
    let p = pre.len() as int;
    assert(s[p] == i32_bytes(v)[0] && s[p + 1] == i32_bytes(v)[1]);
    assert(s.subrange(p + 2, p + 6) =~= be_u32(v as u32));
    lemma_be_u32_roundtrip(s, p + 2, v as u32);
    lemma_signed_casts(0, v, 0);
}

/// Reading a `u64` where `append_u64` wrote one gives back the value.
pub proof fn law_u64_roundtrip(pre: Seq<u8>, v: u64, post: Seq<u8>)
    ensures
        spec_read_u64(pre + u64_bytes(v) + post, pre.len() as int) == Ok::<(u64, int), ProtoError>(
            (v, pre.len() as int + 10),
        ),
{
    let s = pre + u64_bytes(v) + post;
    let p = pre.len() as int;
    assert(s[p] == u64_bytes(v)[0] && s[p + 1] == u64_bytes(v)[1]);
    assert(s.subrange(p + 2, p + 10) =~= be_u64(v));
    lemma_be_u64_roundtrip(s, p + 2, v);
}

/// Reading an `i64` where `append_i64` wrote one gives back the value.
pub proof fn law_i64_roundtrip(pre: Seq<u8>, v: i64, post: Seq<u8>)
    ensures
        spec_read_i64(pre + i64_bytes(v) + post, pre.len() as int) == Ok::<(i64, int), ProtoError>(
            (v, pre.len() as int + 10),
        ),
{
    let s = pre + i64_bytes(v) + post;
    let p = pre.len() as int;
    assert(s[p] == i64_bytes(v)[0] && s[p + 1] == i64_bytes(v)[1]);
    assert(s.subrange(p + 2, p + 10) =~= be_u64(v as u64));
    lemma_be_u64_roundtrip(s, p + 2, v as u64);
    lemma_signed_casts(0, 0, v);
}

/// Reading a small string where `append_small_string` wrote `text` gives back
/// the text.
pub proof fn law_small_string_roundtrip(pre: Seq<u8>, text: Seq<char>, post: Seq<u8>)
    requires
        text_bytes(text).len() <= 255,
    ensures
        spec_read_small_string(pre + small_string_bytes(text_bytes(text)) + post, pre.len() as int)
            == Ok::<(Seq<char>, int), ProtoError>(
            (text, pre.len() as int + 2 + text_bytes(text).len()),
        ),
{
    let b = text_bytes(text);
    let s = pre + small_string_bytes(b) + post;
    let p = pre.len() as int;
    assert(s[p] == small_string_bytes(b)[0] && s[p + 1] == small_string_bytes(b)[1]);
    assert(s[p + 1] == b.len());
    assert(s.subrange(p + 2, p + 2 + b.len()) =~= b);
}

/// Reading a bulk string where `append_bulk_string` wrote `text` gives back
/// the text, when its byte length fits the four byte length field.
pub proof fn law_bulk_string_roundtrip(pre: Seq<u8>, text: Seq<char>, post: Seq<u8>)
    requires
        text_bytes(text).len() <= u32::MAX,
    ensures
        spec_read_bulk_string(pre + bulk_string_bytes(text_bytes(text)) + post, pre.len() as int)
            == Ok::<(Seq<char>, int), ProtoError>(
            (text, pre.len() as int + 5 + text_bytes(text).len()),
        ),
{
    lemma_bulk_bytes_roundtrip(pre, text_bytes(text), post);
}

proof fn lemma_bulk_bytes_roundtrip(pre: Seq<u8>, b: Seq<u8>, post: Seq<u8>)
    requires
        b.len() <= u32::MAX,
    ensures
        spec_read_bulk_bytes(pre + bulk_string_bytes(b) + post, pre.len() as int) == Ok::<
            (Seq<u8>, int),
            ProtoError,
        >((b, pre.len() as int + 5 + b.len())),
{
    let s = pre + bulk_string_bytes(b) + post;
    let p = pre.len() as int;
    assert(s[p] == bulk_string_bytes(b)[0]);
    assert(s.subrange(p + 1, p + 5) =~= be_u32(b.len() as u32));
    lemma_be_u32_roundtrip(s, p + 1, b.len() as u32);
    assert(s.subrange(p + 5, p + 5 + b.len()) =~= b);
}

proof fn lemma_bulk_strings_roundtrip(pre: Seq<u8>, texts: Seq<Seq<char>>, post: Seq<u8>)
    requires
        forall|i: int| 0 <= i < texts.len() ==> #[trigger] text_bytes(texts[i]).len() <= u32::MAX,
    ensures
        spec_read_bulk_strings(pre + bulk_strings_bytes(texts) + post, pre.len() as int, texts.len())
            == Ok::<(Seq<Seq<char>>, int), ProtoError>(
            (texts, pre.len() as int + bulk_strings_bytes(texts).len()),
        ),
    decreases texts.len(),
{
    let s = pre + bulk_strings_bytes(texts) + post;
    if texts.len() == 0 {
        assert(texts =~= seq![]);
    } else {
        let init = texts.drop_last();
        let last_bytes = bulk_string_bytes(text_bytes(texts.last()));
        assert forall|i: int| 0 <= i < init.len() implies #[trigger] text_bytes(init[i]).len()
            <= u32::MAX by {
            assert(init[i] == texts[i]);
        }
        assert(text_bytes(texts[texts.len() - 1]).len() <= u32::MAX);
        lemma_bulk_strings_roundtrip(pre, init, last_bytes + post);
        assert(pre + bulk_strings_bytes(init) + (last_bytes + post) =~= s);
        let q = pre.len() as int + bulk_strings_bytes(init).len();
        assert(spec_read_bulk_strings(s, pre.len() as int, init.len()) == Ok::<
            (Seq<Seq<char>>, int),
            ProtoError,
        >((init, q)));
        law_bulk_string_roundtrip(pre + bulk_strings_bytes(init), texts.last(), post);
        assert(pre + bulk_strings_bytes(init) + last_bytes + post =~= s);
        assert(init.push(texts.last()) =~= texts);
        assert((texts.len() - 1) as nat == init.len());
    }
}

/// Reading a text array where `append_txt_array` wrote `texts` gives back the
/// texts, when their count and each byte length fit the length fields.
pub proof fn law_txt_array_roundtrip(pre: Seq<u8>, texts: Seq<Seq<char>>, post: Seq<u8>)
    requires
        texts.len() <= u32::MAX,
        forall|i: int| 0 <= i < texts.len() ==> #[trigger] text_bytes(texts[i]).len() <= u32::MAX,
    ensures
        spec_read_txt_array(pre + txt_array_bytes(texts) + post, pre.len() as int) == Ok::<
            (Seq<Seq<char>>, int),
            ProtoError,
        >((texts, pre.len() as int + txt_array_bytes(texts).len())),
{
    let s = pre + txt_array_bytes(texts) + post;
    let p = pre.len() as int;
    let head = seq![array_marker()] + be_u32(texts.len() as u32) + seq![ArrType::Txt.code()];
    assert(txt_array_bytes(texts) =~= head + bulk_strings_bytes(texts));
    assert(s[p] == head[0]);
    assert(s[p + 5] == head[5]);
    assert(s.subrange(p + 1, p + 5) =~= be_u32(texts.len() as u32));
    lemma_be_u32_roundtrip(s, p + 1, texts.len() as u32);
    lemma_bulk_strings_roundtrip(pre + head, texts, post);
    assert(pre + head + bulk_strings_bytes(texts) + post =~= s);
}


// ---------------------------------------------------------------------------
// Laws: a decoding that is decided does not change when more input arrives
// ---------------------------------------------------------------------------
proof fn lemma_from_be_ext(s: Seq<u8>, t: Seq<u8>, p: int, w: int)
    requires
        0 <= p,
        p + w <= s.len(),
        w == 2 || w == 4 || w == 8,
    ensures
        w == 2 ==> from_be_u16(s + t, p) == from_be_u16(s, p),
        w == 4 ==> from_be_u32(s + t, p) == from_be_u32(s, p),
        w == 8 ==> from_be_u64(s + t, p) == from_be_u64(s, p),
{
    assert((s + t)[p] == s[p] && (s + t)[p + 1] == s[p + 1]);
    if w >= 4 {
        assert((s + t)[p + 2] == s[p + 2] && (s + t)[p + 3] == s[p + 3]);
    }
    if w == 8 {
        assert((s + t)[p + 4] == s[p + 4] && (s + t)[p + 5] == s[p + 5]);
        assert((s + t)[p + 6] == s[p + 6] && (s + t)[p + 7] == s[p + 7]);
    }
}

proof fn lemma_number_header_ext(s: Seq<u8>, t: Seq<u8>, pos: int, tag: u8)
    requires
        0 <= pos,
    ensures
        spec_number_header(s, pos, tag) != Err::<int, ProtoError>(ProtoError::UnexpectedEof)
            ==> spec_number_header(s + t, pos, tag) == spec_number_header(s, pos, tag),
{
}

/// Once `read_u8` is decided on some input, more input does not change it.
pub proof fn law_read_u8_stable(s: Seq<u8>, t: Seq<u8>, pos: int)
    requires
        0 <= pos,
    ensures
        decided(spec_read_u8(s, pos)) ==> spec_read_u8(s + t, pos) == spec_read_u8(s, pos),
{
    lemma_number_header_ext(s, t, pos, 11);
}

/// Once `read_u16` is decided on some input, more input does not change it.
pub proof fn law_read_u16_stable(s: Seq<u8>, t: Seq<u8>, pos: int)
    requires
        0 <= pos,
    ensures
        decided(spec_read_u16(s, pos)) ==> spec_read_u16(s + t, pos) == spec_read_u16(s, pos),
{
    lemma_number_header_ext(s, t, pos, 12);
    if pos + 4 <= s.len() {
        lemma_from_be_ext(s, t, pos + 2, 2);
    }
}

/// Once `read_i16` is decided on some input, more input does not change it.
pub proof fn law_read_i16_stable(s: Seq<u8>, t: Seq<u8>, pos: int)
    requires
        0 <= pos,
    ensures
        decided(spec_read_i16(s, pos)) ==> spec_read_i16(s + t, pos) == spec_read_i16(s, pos),
{
    lemma_number_header_ext(s, t, pos, 2);
    if pos + 4 <= s.len() {
        lemma_from_be_ext(s, t, pos + 2, 2);
    }
}

/// Once `read_u32` is decided on some input, more input does not change it.
pub proof fn law_read_u32_stable(s: Seq<u8>, t: Seq<u8>, pos: int)
    requires
        0 <= pos,
    ensures
        decided(spec_read_u32(s, pos)) ==> spec_read_u32(s + t, pos) == spec_read_u32(s, pos),
{
    lemma_number_header_ext(s, t, pos, 14);
    if pos + 6 <= s.len() {
        lemma_from_be_ext(s, t, pos + 2, 4);
    }
}

/// Once `read_i32` is decided on some input, more input does not change it.
pub proof fn law_read_i32_stable(s: Seq<u8>, t: Seq<u8>, pos: int)
    requires
        0 <= pos,
    ensures
        decided(spec_read_i32(s, pos)) ==> spec_read_i32(s + t, pos) == spec_read_i32(s, pos),
{
    lemma_number_header_ext(s, t, pos, 4);
    if pos + 6 <= s.len() {
        lemma_from_be_ext(s, t, pos + 2, 4);
    }
}

/// Once `read_u64` is decided on some input, more input does not change it.
pub proof fn law_read_u64_stable(s: Seq<u8>, t: Seq<u8>, pos: int)
    requires
        0 <= pos,
    ensures
        decided(spec_read_u64(s, pos)) ==> spec_read_u64(s + t, pos) == spec_read_u64(s, pos),
{
    lemma_number_header_ext(s, t, pos, 15);
    if pos + 10 <= s.len() {
        lemma_from_be_ext(s, t, pos + 2, 8);
    }
}

/// Once `read_i64` is decided on some input, more input does not change it.
pub proof fn law_read_i64_stable(s: Seq<u8>, t: Seq<u8>, pos: int)
    requires
        0 <= pos,
    ensures
        decided(spec_read_i64(s, pos)) ==> spec_read_i64(s + t, pos) == spec_read_i64(s, pos),
{
    lemma_number_header_ext(s, t, pos, 5);
    if pos + 10 <= s.len() {
        lemma_from_be_ext(s, t, pos + 2, 8);
    }
}

/// Once `read_small_bytes` is decided on some input, more input does not
/// change it.
pub proof fn law_read_small_bytes_stable(s: Seq<u8>, t: Seq<u8>, pos: int)
    requires
        0 <= pos,
    ensures
        decided(spec_read_small_bytes(s, pos)) ==> spec_read_small_bytes(s + t, pos)
            == spec_read_small_bytes(s, pos),
{
    if pos + 1 < s.len() && pos + 2 + s[pos + 1] <= s.len() {
        assert((s + t).subrange(pos + 2, pos + 2 + s[pos + 1]) =~= s.subrange(
            pos + 2,
            pos + 2 + s[pos + 1],
        ));
    }
}

proof fn lemma_bulk_bytes_stable(s: Seq<u8>, t: Seq<u8>, pos: int)
    requires
        0 <= pos,
    ensures
        decided(spec_read_bulk_bytes(s, pos)) ==> spec_read_bulk_bytes(s + t, pos)
            == spec_read_bulk_bytes(s, pos),
{
    if pos + 5 <= s.len() {
        lemma_from_be_ext(s, t, pos + 1, 4);
        let n = from_be_u32(s, pos + 1);
        if pos + 5 + n <= s.len() {
            assert((s + t).subrange(pos + 5, pos + 5 + n) =~= s.subrange(pos + 5, pos + 5 + n));
        }
    }
}

/// Once `read_small_string` is decided on some input, more input does not
/// change it.
pub proof fn law_read_small_string_stable(s: Seq<u8>, t: Seq<u8>, pos: int)
    requires
        0 <= pos,
    ensures
        decided(spec_read_small_string(s, pos)) ==> spec_read_small_string(s + t, pos)
            == spec_read_small_string(s, pos),
{
    law_read_small_bytes_stable(s, t, pos);
}

/// Once `read_bulk_string` is decided on some input, more input does not
/// change it.
pub proof fn law_read_bulk_string_stable(s: Seq<u8>, t: Seq<u8>, pos: int)
    requires
        0 <= pos,
    ensures
        decided(spec_read_bulk_string(s, pos)) ==> spec_read_bulk_string(s + t, pos)
            == spec_read_bulk_string(s, pos),
{
    lemma_bulk_bytes_stable(s, t, pos);
}

proof fn lemma_array_header_stable(s: Seq<u8>, t: Seq<u8>, pos: int, tag: u8)
    requires
        0 <= pos,
    ensures
        spec_array_header(s, pos, tag) != Err::<(u32, int), ProtoError>(ProtoError::UnexpectedEof)
            ==> spec_array_header(s + t, pos, tag) == spec_array_header(s, pos, tag),
{
    if pos + 6 <= s.len() {
        lemma_from_be_ext(s, t, pos + 1, 4);
    }
}

proof fn lemma_bulk_strings_stable(s: Seq<u8>, t: Seq<u8>, p: int, count: nat)
    requires
        0 <= p,
    ensures
        decided(spec_read_bulk_strings(s, p, count)) ==> spec_read_bulk_strings(s + t, p, count)
            == spec_read_bulk_strings(s, p, count),
    decreases count,
{
    if count > 0 {
        lemma_bulk_strings_stable(s, t, p, (count - 1) as nat);
        match spec_read_bulk_strings(s, p, (count - 1) as nat) {
            Ok((_, q)) => {
                lemma_bulk_strings_bounds(s, p, (count - 1) as nat);
                law_read_bulk_string_stable(s, t, q);
            },
            Err(_) => {},
        }
    }
}

pub proof fn lemma_bulk_strings_bounds(s: Seq<u8>, p: int, count: nat)
    requires
        0 <= p,
    ensures
        spec_read_bulk_strings(s, p, count) matches Ok((_, q)) ==> p <= q,
    decreases count,
{
    if count > 0 {
        lemma_bulk_strings_bounds(s, p, (count - 1) as nat);
    }
}

/// Once `read_txt_array` is decided on some input, more input does not change
/// it.
pub proof fn law_read_txt_array_stable(s: Seq<u8>, t: Seq<u8>, pos: int)
    requires
        0 <= pos,
    ensures
        decided(spec_read_txt_array(s, pos)) ==> spec_read_txt_array(s + t, pos)
            == spec_read_txt_array(s, pos),
{
    lemma_array_header_stable(s, t, pos, 23);
    if let Ok((n, p)) = spec_array_header(s, pos, 23) {
        lemma_bulk_strings_stable(s, t, p, n as nat);
    }
}


proof fn lemma_fixed_array_stable<T>(
    s: Seq<u8>,
    t: Seq<u8>,
    pos: int,
    tag: u8,
    width: int,
    elem: spec_fn(Seq<u8>, int) -> T,
)
    requires
        0 <= pos,
        0 < width,
        forall|p: int| 0 <= p && p + width <= s.len() ==> #[trigger] elem(s + t, p) == elem(s, p),
    ensures
        decided(spec_read_fixed_array(s, pos, tag, width, elem)) ==> spec_read_fixed_array(
            s + t,
            pos,
            tag,
            width,
            elem,
        ) == spec_read_fixed_array(s, pos, tag, width, elem),
{
    lemma_array_header_stable(s, t, pos, tag);
    if let Ok((n, p)) = spec_array_header(s, pos, tag) {
        if p + width * n <= s.len() {
            assert forall|i: int| 0 <= i < n implies #[trigger] elem(s + t, p + width * i) == elem(
                s,
                p + width * i,
            ) by {
                assert(width * i + width <= width * n) by (nonlinear_arith)
                    requires
                        0 <= i < n,
                        0 < width,
                ;
                assert(0 <= width * i) by (nonlinear_arith)
                    requires
                        0 <= i,
                        0 < width,
                ;
            }
            assert(Seq::new(n as nat, |i: int| elem(s + t, p + width * i)) =~= Seq::new(
                n as nat,
                |i: int| elem(s, p + width * i),
            ));
        }
    }
}

/// Once `read_i16_array` is decided on some input, more input does not
/// change it.
pub proof fn law_read_i16_array_stable(s: Seq<u8>, t: Seq<u8>, pos: int)
    requires
        0 <= pos,
    ensures
        decided(spec_read_i16_array(s, pos)) ==> spec_read_i16_array(s + t, pos)
            == spec_read_i16_array(s, pos),
{
    let elem = |s: Seq<u8>, p: int| from_be_u16(s, p) as i16;
    assert forall|p: int| 0 <= p && p + 2 <= s.len() implies #[trigger] elem(s + t, p) == elem(s, p) by {
        lemma_from_be_ext(s, t, p, 2);
    }
    lemma_fixed_array_stable(s, t, pos, 2, 2, elem);
}

/// Once `read_i32_array` is decided on some input, more input does not
/// change it.
pub proof fn law_read_i32_array_stable(s: Seq<u8>, t: Seq<u8>, pos: int)
    requires
        0 <= pos,
    ensures
        decided(spec_read_i32_array(s, pos)) ==> spec_read_i32_array(s + t, pos)
            == spec_read_i32_array(s, pos),
{
    let elem = |s: Seq<u8>, p: int| from_be_u32(s, p) as i32;
    assert forall|p: int| 0 <= p && p + 4 <= s.len() implies #[trigger] elem(s + t, p) == elem(s, p) by {
        lemma_from_be_ext(s, t, p, 4);
    }
    lemma_fixed_array_stable(s, t, pos, 4, 4, elem);
}

/// Once `read_i64_array` is decided on some input, more input does not
/// change it.
pub proof fn law_read_i64_array_stable(s: Seq<u8>, t: Seq<u8>, pos: int)
    requires
        0 <= pos,
    ensures
        decided(spec_read_i64_array(s, pos)) ==> spec_read_i64_array(s + t, pos)
            == spec_read_i64_array(s, pos),
{
    let elem = |s: Seq<u8>, p: int| from_be_u64(s, p) as i64;
    assert forall|p: int| 0 <= p && p + 8 <= s.len() implies #[trigger] elem(s + t, p) == elem(s, p) by {
        lemma_from_be_ext(s, t, p, 8);
    }
    lemma_fixed_array_stable(s, t, pos, 5, 8, elem);
}

/// Once `read_u16_array` is decided on some input, more input does not
/// change it.
pub proof fn law_read_u16_array_stable(s: Seq<u8>, t: Seq<u8>, pos: int)
    requires
        0 <= pos,
    ensures
        decided(spec_read_u16_array(s, pos)) ==> spec_read_u16_array(s + t, pos)
            == spec_read_u16_array(s, pos),
{
    let elem = |s: Seq<u8>, p: int| from_be_u16(s, p);
    assert forall|p: int| 0 <= p && p + 2 <= s.len() implies #[trigger] elem(s + t, p) == elem(s, p) by {
        lemma_from_be_ext(s, t, p, 2);
    }
    lemma_fixed_array_stable(s, t, pos, 12, 2, elem);
}

/// Once `read_u32_array` is decided on some input, more input does not
/// change it.
pub proof fn law_read_u32_array_stable(s: Seq<u8>, t: Seq<u8>, pos: int)
    requires
        0 <= pos,
    ensures
        decided(spec_read_u32_array(s, pos)) ==> spec_read_u32_array(s + t, pos)
            == spec_read_u32_array(s, pos),
{
    let elem = |s: Seq<u8>, p: int| from_be_u32(s, p);
    assert forall|p: int| 0 <= p && p + 4 <= s.len() implies #[trigger] elem(s + t, p) == elem(s, p) by {
        lemma_from_be_ext(s, t, p, 4);
    }
    lemma_fixed_array_stable(s, t, pos, 14, 4, elem);
}

/// Once `read_u8_array` is decided on some input, more input does not change
/// it.
pub proof fn law_read_u8_array_stable(s: Seq<u8>, t: Seq<u8>, pos: int)
    requires
        0 <= pos,
    ensures
        decided(spec_read_u8_array(s, pos)) ==> spec_read_u8_array(s + t, pos)
            == spec_read_u8_array(s, pos),
{
    let elem = |s: Seq<u8>, p: int| s[p];
    assert forall|p: int| 0 <= p && p + 1 <= s.len() implies #[trigger] elem(s + t, p) == elem(s, p) by {
        assert((s + t)[p] == s[p]);
    }
    lemma_fixed_array_stable(s, t, pos, 11, 1, elem);
}


// ---------------------------------------------------------------------------
// Frames
// ---------------------------------------------------------------------------
/// The head of a request frame: two newlines, the protocol version 1, the
/// request type 1 (a client), the client's UUID, the cluster hash the client
/// knows, a timestamp and the command type.
pub open spec fn req_header_bytes(
    cmd_type: CommandType,
    client_id: Seq<u8>,
    hash: u64,
    timestamp: i64,
) -> Seq<u8> {
    seq![0x0au8, 0x0au8, 1u8, 1u8] + client_id + be_u64(hash) + be_u64(timestamp as u64) + seq![
        cmd_type.code(),
    ]
}

pub fn append_req_header(
    buf: &mut Vec<u8>,
    cmd_type: CommandType,
    client_uuid: [u8; 16],
    hash: u64,
    timestamp: i64,
)
    ensures
        final(buf)@ == old(buf)@ + req_header_bytes(cmd_type, client_uuid@, hash, timestamp),
{
    buf.push(0x0au8);
    buf.push(0x0au8);
    buf.push(1u8);
    buf.push(1u8);
    extend_bytes(buf, &client_uuid);
    push_be_u64(buf, hash);
    push_be_u64(buf, timestamp as u64);
    let code: u8 = match cmd_type {
        CommandType::Cfg => 1,
        CommandType::Data => 2,
        CommandType::Unknown => 255,
    };
    buf.push(code);
    assert(buf@ =~= old(buf)@ + req_header_bytes(cmd_type, client_uuid@, hash, timestamp));
}

/// Moves the bytes of a vector into a boxed slice (std's
/// `Vec::into_boxed_slice`); the bytes are unchanged.
#[verifier::external_body]
pub(crate) fn into_boxed_bytes(v: Vec<u8>) -> (b: Box<[u8]>)
    ensures
        b@ == v@,
{
    v.into_boxed_slice()
}


/// Whether bytes are valid UTF-8, as std's `core::str::from_utf8` decides it.
#[verifier::external_body]
fn utf8_valid(bytes: &[u8]) -> (r: bool)
    ensures
        r == valid_utf8(bytes@),
{
    core::str::from_utf8(bytes).is_ok()
}

/// Fails with `InvalidUtf8` unless the bytes are valid UTF-8.
pub fn check_utf8(bytes: &Vec<u8>) -> (r: Result<(), ProtoError>)
    ensures
        r is Ok <==> valid_utf8(bytes@),
        r is Err ==> r == Err::<(), ProtoError>(ProtoError::InvalidUtf8),
{
    if utf8_valid(bytes.as_slice()) {
        Ok(())
    } else {
        Err(ProtoError::InvalidUtf8)
    }
}


/// Decodes the head of a response frame: two newlines, the protocol version
/// 1, a byte that is not 0 when a cluster description follows as a bulk
/// string of JSON text, then the response type. Gives the response type and
/// the JSON text, if any.
pub open spec fn spec_read_res_header(s: Seq<u8>, pos: int) -> SpecRes<(ResType, Option<Seq<char>>)> {
    if pos + 2 > s.len() {
        Err(ProtoError::UnexpectedEof)
    } else if s[pos] != 0x0a || s[pos + 1] != 0x0a {
        Err(ProtoError::BadFrameStart)
    } else if pos + 2 >= s.len() {
        Err(ProtoError::UnexpectedEof)
    } else if s[pos + 2] != 1 {
        Err(ProtoError::UnsupportedVersion { found: s[pos + 2] })
    } else if pos + 3 >= s.len() {
        Err(ProtoError::UnexpectedEof)
    } else {
        let cluster: SpecRes<Option<Seq<char>>> = if s[pos + 3] != 0 {
            match spec_read_bulk_string(s, pos + 4) {
                Err(e) => Err(e),
                Ok((json, q)) => Ok((Some(json), q)),
            }
        } else {
            Ok((None, pos + 4))
        };
        match cluster {
            Err(e) => Err(e),
            Ok((json, q)) => if q >= s.len() {
                Err(ProtoError::UnexpectedEof)
            } else {
                Ok(((ResType::from_code(s[q]), json), q + 1))
            },
        }
    }
}

pub fn read_res_header(buf: &[u8], pos: usize) -> (r: Result<
    ((ResType, Option<String>), usize),
    ProtoError,
>)
    ensures
        agrees(r, spec_read_res_header(buf@, pos as int)),
{
    if pos >= buf.len() || buf.len() - pos < 2 {
        return Err(ProtoError::UnexpectedEof);
    }
    if buf[pos] != 0x0au8 || buf[pos + 1] != 0x0au8 {
        return Err(ProtoError::BadFrameStart);
    }
    if pos + 2 >= buf.len() {
        return Err(ProtoError::UnexpectedEof);
    }
    if buf[pos + 2] != 1u8 {
        return Err(ProtoError::UnsupportedVersion { found: buf[pos + 2] });
    }
    if pos + 3 >= buf.len() {
        return Err(ProtoError::UnexpectedEof);
    }
    let (cluster, q) = if buf[pos + 3] != 0u8 {
        let (json, q) = read_bulk_string(buf, pos + 4)?;
        (Some(json), q)
    } else {
        (None, pos + 4)
    };
    if q >= buf.len() {
        return Err(ProtoError::UnexpectedEof);
    }
    let res_type = ResType::from(buf[q]);
    Ok(((res_type, cluster), q + 1))
}

/// Once the head of a response frame is decided on some input, more input
/// does not change it.
pub proof fn law_read_res_header_stable(s: Seq<u8>, t: Seq<u8>, pos: int)
    requires
        0 <= pos,
    ensures
        decided(spec_read_res_header(s, pos)) ==> spec_read_res_header(s + t, pos)
            == spec_read_res_header(s, pos),
{
    if pos + 4 <= s.len() {
        law_read_bulk_string_stable(s, t, pos + 4);
    }
}

} // verus!
