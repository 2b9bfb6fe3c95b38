//! Primitive readers for the fields of an A2S response datagram.
//!
//! A [`Reader`] walks a byte slice front to back. Each primitive either
//! consumes exactly the bytes of one field and returns its value, or fails
//! and leaves the reader where it was.

use vstd::prelude::*;
use vstd::slice::{slice_subrange, slice_to_vec};
use vstd::utf8::{decode_utf8, valid_utf8};

verus! {

/// Why a response could not be decoded.
#[derive(Debug, Clone, Copy, PartialEq, Eq, Structural)]
pub enum DecodeError {
    /// The datagram ended before the field did.
    UnexpectedEnd,
    /// A string field is not well-formed UTF-8.
    InvalidUtf8,
}

/// Value of two bytes read as an unsigned little-endian integer.
pub open spec fn le_u16(s: Seq<u8>) -> int
    recommends
        s.len() == 2,
{
    s[0] as int + 0x100 * (s[1] as int)
}

/// Value of four bytes read as an unsigned little-endian integer.
pub open spec fn le_u32(s: Seq<u8>) -> int
    recommends
        s.len() == 4,
{
    s[0] as int + 0x100 * (s[1] as int) + 0x1_0000 * (s[2] as int) + 0x100_0000 * (s[3] as int)
}

/// Value of eight bytes read as an unsigned little-endian integer.
pub open spec fn le_u64(s: Seq<u8>) -> int
    recommends
        s.len() == 8,
{
    le_u32(s.subrange(0, 4)) + 0x1_0000_0000 * le_u32(s.subrange(4, 8))
}

/// Two's-complement reading of an unsigned value of the given bit width.
pub open spec fn as_signed(value: int, modulus: int) -> int {
    if 2 * value < modulus {
        value
    } else {
        value - modulus
    }
}

/// What [`byte`] makes of the unread bytes: the value and the bytes left.
pub open spec fn spec_byte(s: Seq<u8>) -> Result<(u8, Seq<u8>), DecodeError> {
    if s.len() >= 1 {
        Ok((s[0], s.skip(1)))
    } else {
        Err(DecodeError::UnexpectedEnd)
    }
}

/// What [`short`] makes of the unread bytes.
pub open spec fn spec_short(s: Seq<u8>) -> Result<(i16, Seq<u8>), DecodeError> {
    if s.len() >= 2 {
        Ok((as_signed(le_u16(s.take(2)), 0x1_0000) as i16, s.skip(2)))
    } else {
        Err(DecodeError::UnexpectedEnd)
    }
}

/// What [`long`] makes of the unread bytes.
pub open spec fn spec_long(s: Seq<u8>) -> Result<(i32, Seq<u8>), DecodeError> {
    if s.len() >= 4 {
        Ok((as_signed(le_u32(s.take(4)), 0x1_0000_0000) as i32, s.skip(4)))
    } else {
        Err(DecodeError::UnexpectedEnd)
    }
}

/// What [`long_long`] makes of the unread bytes.
pub open spec fn spec_long_long(s: Seq<u8>) -> Result<(u64, Seq<u8>), DecodeError> {
    if s.len() >= 8 {
        Ok((le_u64(s.take(8)) as u64, s.skip(8)))
    } else {
        Err(DecodeError::UnexpectedEnd)
    }
}

/// What [`float`] makes of the unread bytes: the four bytes of an IEEE 754
/// single, as the bit pattern they spell.
pub open spec fn spec_float(s: Seq<u8>) -> Result<(u32, Seq<u8>), DecodeError> {
    if s.len() >= 4 {
        Ok((le_u32(s.take(4)) as u32, s.skip(4)))
    } else {
        Err(DecodeError::UnexpectedEnd)
    }
}

/// `n` is the position of the first NUL byte of `s`.
pub open spec fn is_first_nul(s: Seq<u8>, n: int) -> bool {
    &&& 0 <= n < s.len()
    &&& s[n] == 0
    &&& forall|j: int| 0 <= j < n ==> s[j] != 0
}

/// `s` holds a NUL byte.
pub open spec fn has_nul(s: Seq<u8>) -> bool {
    exists|n: int| is_first_nul(s, n)
}

/// Position of the first NUL byte of `s`, where it has one.
pub open spec fn first_nul(s: Seq<u8>) -> int
    recommends
        has_nul(s),
{
    choose|n: int| is_first_nul(s, n)
}

/// What [`string`] makes of the unread bytes: the text before the first NUL,
/// and the bytes after that NUL.
#[verifier::opaque]
pub open spec fn spec_string(s: Seq<u8>) -> Result<(Seq<char>, Seq<u8>), DecodeError> {
    if !has_nul(s) {
        Err(DecodeError::UnexpectedEnd)
    } else if !valid_utf8(s.take(first_nul(s))) {
        Err(DecodeError::InvalidUtf8)
    } else {
        Ok((decode_utf8(s.take(first_nul(s))), s.skip(first_nul(s) + 1)))
    }
}

/// The bytes that follow a field, where the field was read.
pub open spec fn rest<T>(field: Result<(T, Seq<u8>), DecodeError>) -> Seq<u8> {
    field->Ok_0.1
}

/// The value of a field, where the field was read.
pub open spec fn value<T>(field: Result<(T, Seq<u8>), DecodeError>) -> T {
    field->Ok_0.0
}

/// `s` without its last `d` bytes.
pub open spec fn cut(s: Seq<u8>, d: int) -> Seq<u8> {
    s.take(s.len() - d)
}

/// What becomes of a field that was read when `d` bytes are cut off the end
/// of the input: the same value while the cut stays behind the field, and
/// the end of input once it reaches into it.
pub open spec fn cut_field<T>(field: Result<(T, Seq<u8>), DecodeError>, d: int) -> Result<
    (T, Seq<u8>),
    DecodeError,
> {
    if d <= rest(field).len() {
        Ok((value(field), cut(rest(field), d)))
    } else {
        Err(DecodeError::UnexpectedEnd)
    }
}

/// A byte is read alike from input cut short behind it, and not at all from
/// input cut short of it.
pub proof fn lemma_byte_cut(s: Seq<u8>, d: int)
    requires
        spec_byte(s) is Ok,
        0 <= d <= s.len(),
    ensures
        spec_byte(cut(s, d)) == cut_field(spec_byte(s), d),
{
    if d <= s.len() - 1 {
        assert(cut(s, d).skip(1) == cut(s.skip(1), d));
    }
}

/// A 16-bit integer is read alike from input cut short behind it, and not at
/// all from input cut short inside it.
pub proof fn lemma_short_cut(s: Seq<u8>, d: int)
    requires
        spec_short(s) is Ok,
        0 <= d <= s.len(),
    ensures
        spec_short(cut(s, d)) == cut_field(spec_short(s), d),
{
    if d <= s.len() - 2 {
        assert(cut(s, d).skip(2) == cut(s.skip(2), d));
        assert(cut(s, d).take(2) == s.take(2));
    }
}

/// A 32-bit integer is read alike from input cut short behind it, and not at
/// all from input cut short inside it.
pub proof fn lemma_long_cut(s: Seq<u8>, d: int)
    requires
        spec_long(s) is Ok,
        0 <= d <= s.len(),
    ensures
        spec_long(cut(s, d)) == cut_field(spec_long(s), d),
{
    if d <= s.len() - 4 {
        assert(cut(s, d).skip(4) == cut(s.skip(4), d));
        assert(cut(s, d).take(4) == s.take(4));
    }
}

/// The bits of a single are read alike from input cut short behind them, and
/// not at all from input cut short inside them.
pub proof fn lemma_float_cut(s: Seq<u8>, d: int)
    requires
        spec_float(s) is Ok,
        0 <= d <= s.len(),
    ensures
        spec_float(cut(s, d)) == cut_field(spec_float(s), d),
{
    if d <= s.len() - 4 {
        assert(cut(s, d).skip(4) == cut(s.skip(4), d));
        assert(cut(s, d).take(4) == s.take(4));
    }
}

/// A 64-bit integer is read alike from input cut short behind it, and not at
/// all from input cut short inside it.
pub proof fn lemma_long_long_cut(s: Seq<u8>, d: int)
    requires
        spec_long_long(s) is Ok,
        0 <= d <= s.len(),
    ensures
        spec_long_long(cut(s, d)) == cut_field(spec_long_long(s), d),
{
    if d <= s.len() - 8 {
        assert(cut(s, d).skip(8) == cut(s.skip(8), d));
        assert(cut(s, d).take(8) == s.take(8));
    }
}

/// The first NUL of a sequence is the only position that qualifies.
pub proof fn lemma_first_nul_unique(s: Seq<u8>, n: int)
    requires
        is_first_nul(s, n),
    ensures
        has_nul(s),
        first_nul(s) == n,
{
    let m = first_nul(s);
    assert(is_first_nul(s, m));
}

/// A string that was read took at least its terminator off the input.
pub proof fn lemma_string_rest(s: Seq<u8>)
    requires
        spec_string(s) is Ok,
    ensures
        rest(spec_string(s)).len() < s.len(),
{
    reveal(spec_string);
    assert(is_first_nul(s, first_nul(s)));
}

/// A string is read alike from input cut short behind its terminator. Input
/// cut short inside the string, or of its terminator, is the end of input.
pub proof fn lemma_string_cut(s: Seq<u8>, d: int)
    requires
        spec_string(s) is Ok,
        0 <= d <= s.len(),
    ensures
        spec_string(cut(s, d)) == cut_field(spec_string(s), d),
{
    reveal(spec_string);
    let n = first_nul(s);
    assert(is_first_nul(s, n));
    let p = cut(s, d);
    if d <= s.len() - (n + 1) {
        assert(is_first_nul(p, n));
        lemma_first_nul_unique(p, n);
        assert(p.take(n) == s.take(n));
        assert(p.skip(n + 1) == cut(s.skip(n + 1), d));
    } else {
        assert forall|m: int| !is_first_nul(p, m) by {
            if is_first_nul(p, m) {
                assert(s[m] == 0);
            }
        }
    }
}

/// A read position in a response datagram.
pub struct Reader<'a> {
    data: &'a [u8],
    pos: usize,
}

impl<'a> Reader<'a> {
    #[verifier::type_invariant]
    spec fn in_bounds(self) -> bool {
        self.pos <= self.data@.len()
    }

    /// The bytes not yet consumed.
    pub closed spec fn remaining(self) -> Seq<u8> {
        self.data@.skip(self.pos as int)
    }

    /// A reader positioned at the first byte of `data`.
    pub fn new(data: &'a [u8]) -> (r: Self)
        ensures
            r.remaining() == data@,
    {
        Reader { data, pos: 0 }
    }

    /// Number of bytes not yet consumed.
    pub fn len(&self) -> (n: usize)
        ensures
            n == self.remaining().len(),
    {
        proof {
            use_type_invariant(self);
        }
        self.data.len() - self.pos
    }

    /// Skips `n` bytes, or fails without moving if fewer are left.
    pub fn advance(&mut self, n: usize) -> (res: Result<(), DecodeError>)
        ensures
            n <= old(self).remaining().len() ==> res == Ok::<(), DecodeError>(())
                && final(self).remaining() == old(self).remaining().skip(n as int),
            n > old(self).remaining().len() ==> res == Err::<(), DecodeError>(
                DecodeError::UnexpectedEnd,
            ) && final(self).remaining() == old(self).remaining(),
    {
        proof {
            use_type_invariant(&*self);
        }
        if n <= self.data.len() - self.pos {
            self.pos = self.pos + n;
            Ok(())
        } else {
            Err(DecodeError::UnexpectedEnd)
        }
    }
}

/// Reads one byte.
pub fn byte(data: &mut Reader) -> (res: Result<u8, DecodeError>)
    ensures
        match spec_byte(old(data).remaining()) {
            Ok((v, rest)) => res == Ok::<u8, DecodeError>(v) && final(data).remaining() == rest,
            Err(e) => res == Err::<u8, DecodeError>(e) && final(data).remaining() == old(
                data,
            ).remaining(),
        },
{
    proof {
        use_type_invariant(&*data);
    }
    if data.pos < data.data.len() {
        let v: u8 = data.data[data.pos];
        data.pos = data.pos + 1;
        Ok(v)
    } else {
        Err(DecodeError::UnexpectedEnd)
    }
}

/// Reads a little-endian signed 16-bit integer.
pub fn short(data: &mut Reader) -> (res: Result<i16, DecodeError>)
    ensures
        match spec_short(old(data).remaining()) {
            Ok((v, rest)) => res == Ok::<i16, DecodeError>(v) && final(data).remaining() == rest,
            Err(e) => res == Err::<i16, DecodeError>(e) && final(data).remaining() == old(
                data,
            ).remaining(),
        },
{
    proof {
        use_type_invariant(&*data);
    }
    if data.data.len() - data.pos < 2 {
        return Err(DecodeError::UnexpectedEnd);
    }
    let raw: u16 = data.data[data.pos] as u16 + 0x100 * (data.data[data.pos + 1] as u16);
    data.pos = data.pos + 2;
    if raw < 0x8000 {
        Ok(raw as i16)
    } else {
        Ok((raw as i32 - 0x1_0000) as i16)
    }
}

/// The four bytes at `pos`, read as an unsigned little-endian integer.
fn le_u32_at(data: &[u8], pos: usize) -> (v: u32)
    requires
        pos + 4 <= data@.len(),
    ensures
        v == le_u32(data@.subrange(pos as int, pos + 4)),
{
    data[pos] as u32 + 0x100 * (data[pos + 1] as u32) + 0x1_0000 * (data[pos + 2] as u32)
        + 0x100_0000 * (data[pos + 3] as u32)
}

/// Reads a little-endian signed 32-bit integer.
pub fn long(data: &mut Reader) -> (res: Result<i32, DecodeError>)
    ensures
        match spec_long(old(data).remaining()) {
            Ok((v, rest)) => res == Ok::<i32, DecodeError>(v) && final(data).remaining() == rest,
            Err(e) => res == Err::<i32, DecodeError>(e) && final(data).remaining() == old(
                data,
            ).remaining(),
        },
{
    proof {
        use_type_invariant(&*data);
    }
    if data.data.len() - data.pos < 4 {
        return Err(DecodeError::UnexpectedEnd);
    }
    let raw: u32 = le_u32_at(data.data, data.pos);
    assert(data.remaining().take(4) == data.data@.subrange(data.pos as int, data.pos + 4));
    data.pos = data.pos + 4;
    if raw < 0x8000_0000 {
        Ok(raw as i32)
    } else {
        Ok((raw as i64 - 0x1_0000_0000) as i32)
    }
}

/// Reads the four bytes of a little-endian IEEE 754 single and returns its
/// bit pattern.
pub fn float(data: &mut Reader) -> (res: Result<u32, DecodeError>)
    ensures
        match spec_float(old(data).remaining()) {
            Ok((v, rest)) => res == Ok::<u32, DecodeError>(v) && final(data).remaining() == rest,
            Err(e) => res == Err::<u32, DecodeError>(e) && final(data).remaining() == old(
                data,
            ).remaining(),
        },
{
    proof {
        use_type_invariant(&*data);
    }
    if data.data.len() - data.pos < 4 {
        return Err(DecodeError::UnexpectedEnd);
    }
    let raw: u32 = le_u32_at(data.data, data.pos);
    assert(data.remaining().take(4) == data.data@.subrange(data.pos as int, data.pos + 4));
    data.pos = data.pos + 4;
    Ok(raw)
}

/// Reads a little-endian unsigned 64-bit integer.
pub fn long_long(data: &mut Reader) -> (res: Result<u64, DecodeError>)
    ensures
        match spec_long_long(old(data).remaining()) {
            Ok((v, rest)) => res == Ok::<u64, DecodeError>(v) && final(data).remaining() == rest,
            Err(e) => res == Err::<u64, DecodeError>(e) && final(data).remaining() == old(
                data,
            ).remaining(),
        },
{
    proof {
        use_type_invariant(&*data);
    }
    if data.data.len() - data.pos < 8 {
        return Err(DecodeError::UnexpectedEnd);
    }
    let low: u32 = le_u32_at(data.data, data.pos);
    let high: u32 = le_u32_at(data.data, data.pos + 4);
    proof {
        let field = data.remaining().take(8);
        assert(field.subrange(0, 4) == data.data@.subrange(data.pos as int, data.pos + 4));
        assert(field.subrange(4, 8) == data.data@.subrange(data.pos + 4, data.pos + 8));
    }
    data.pos = data.pos + 8;
    Ok(low as u64 + 0x1_0000_0000 * (high as u64))
}

/// `String::from_utf8`: the text that `bytes` encodes, or `None` where they
/// are not well-formed UTF-8. Well-formedness and decoding are those of
/// `vstd::utf8`.
#[verifier::external_body]
fn utf8_to_string(bytes: Vec<u8>) -> (res: Option<String>)
    ensures
        res is Some <==> valid_utf8(bytes@),
        res matches Some(s) ==> s@ == decode_utf8(bytes@),
{
    match String::from_utf8(bytes) {
        Ok(s) => Some(s),
        Err(_) => None,
    }
}

/// Reads a NUL-terminated UTF-8 string and consumes its terminator.
///
/// Fails with [`DecodeError::UnexpectedEnd`] where no NUL is left, and with
/// [`DecodeError::InvalidUtf8`] where the bytes before it are not well-formed.
pub fn string(data: &mut Reader) -> (res: Result<String, DecodeError>)
    ensures
        match spec_string(old(data).remaining()) {
            Ok((text, rest)) => res matches Ok(s) && s@ == text && final(data).remaining()
                == rest,
            Err(e) => res == Err::<String, DecodeError>(e) && final(data).remaining() == old(
                data,
            ).remaining(),
        },
{
    proof {
        use_type_invariant(&*data);
    }
    proof {
        reveal(spec_string);
    }
    let ghost rem = data.remaining();
    let bytes: &[u8] = data.data;
    let start: usize = data.pos;
    let mut end: usize = start;
    while end < bytes.len() && bytes[end] != 0
        invariant
            start <= end <= bytes@.len(),
            forall|j: int| start <= j < end ==> bytes@[j] != 0,
        decreases bytes@.len() - end,
    {
        end = end + 1;
    }
    if end >= bytes.len() {
        proof {
            assert forall|n: int| !is_first_nul(rem, n) by {
                if 0 <= n < rem.len() {
                    assert(rem[n] == bytes@[start + n]);
                }
            }
        }
        return Err(DecodeError::UnexpectedEnd);
    }
    proof {
        let n = end - start;
        assert forall|j: int| 0 <= j < n implies rem[j] != 0 by {
            assert(rem[j] == bytes@[start + j]);
        }
        assert(is_first_nul(rem, n));
        let m = first_nul(rem);
        assert(is_first_nul(rem, m));
        assert(m == n);
        assert(rem.take(n) == bytes@.subrange(start as int, end as int));
        assert(rem.skip(n + 1) == bytes@.skip(end + 1));
    }
    match utf8_to_string(slice_to_vec(slice_subrange(bytes, start, end))) {
        Some(s) => {
            data.pos = end + 1;
            Ok(s)
        },
        None => Err(DecodeError::InvalidUtf8),
    }
}

} // verus!
