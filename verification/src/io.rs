//! The byte level of the codec: fixed-width little-endian integers and
//! length-prefixed UTF-8 strings, read from a slice and appended to a vector.

use crate::error::unexpected_eof;
use crate::error::NbsError;
use crate::error::NbsErrorKind;
use byteorder::ByteOrder;
use byteorder::LittleEndian;
use vstd::prelude::*;
use vstd::slice::slice_subrange;
use vstd::slice::slice_to_vec;
use vstd::utf8::decode_utf8;
use vstd::utf8::encode_utf8;
use vstd::utf8::valid_utf8;

verus! {

/// What a parser makes of a byte sequence: a value and the bytes behind it,
/// or the kind of the failure.
pub type Parsed<T> = Result<(T, Seq<u8>), NbsErrorKind>;

/// The signed number that a byte stands for.
pub open spec fn byte_as_i8(b: u8) -> i8 {
    if b < 0x80 {
        b as i8
    } else {
        (b - 0x100) as i8
    }
}

/// The byte that stands for a signed number.
pub open spec fn i8_as_byte(v: i8) -> u8 {
    if v >= 0 {
        v as u8
    } else {
        (v + 0x100) as u8
    }
}

/// The 16-bit number whose little-endian form the first two bytes of `b` are.
pub open spec fn le_i16(b: Seq<u8>) -> i16
    recommends
        b.len() >= 2,
{
    let u = b[0] as int + 0x100 * (b[1] as int);
    if u < 0x8000 {
        u as i16
    } else {
        (u - 0x1_0000) as i16
    }
}

/// The two bytes of a 16-bit number, low byte first.
pub open spec fn i16_le(v: i16) -> Seq<u8> {
    let u = if v >= 0 {
        v as int
    } else {
        v + 0x1_0000
    };
    seq![(u % 0x100) as u8, (u / 0x100) as u8]
}

/// The 32-bit number whose little-endian form the first four bytes of `b` are.
pub open spec fn le_i32(b: Seq<u8>) -> i32
    recommends
        b.len() >= 4,
{
    let u = b[0] as int + 0x100 * (b[1] as int) + 0x1_0000 * (b[2] as int) + 0x100_0000 * (
    b[3] as int);
    if u < 0x8000_0000 {
        u as i32
    } else {
        (u - 0x1_0000_0000) as i32
    }
}

/// The four bytes of a 32-bit number, low byte first.
pub open spec fn i32_le(v: i32) -> Seq<u8> {
    let u = if v >= 0 {
        v as int
    } else {
        v + 0x1_0000_0000
    };
    seq![
        (u % 0x100) as u8,
        ((u / 0x100) % 0x100) as u8,
        ((u / 0x1_0000) % 0x100) as u8,
        (u / 0x100_0000) as u8,
    ]
}

/// One byte that holds `v`.
pub open spec fn i8_bytes(v: i8) -> Seq<u8> {
    seq![i8_as_byte(v)]
}

/// One byte that holds a flag: 1 for true, 0 for false.
pub open spec fn flag_bytes(b: bool) -> Seq<u8> {
    i8_bytes(
        if b {
            1i8
        } else {
            0i8
        },
    )
}

/// A string on the wire: the length of its UTF-8 form as a 32-bit number,
/// then that form. A string whose UTF-8 form is longer than `i32::MAX` has
/// none.
#[verifier::opaque]
pub open spec fn string_bytes(s: Seq<char>) -> Option<Seq<u8>> {
    let body = encode_utf8(s);
    if body.len() <= i32::MAX {
        Some(i32_le(body.len() as i32) + body)
    } else {
        None
    }
}

/// Two byte sequences in a row, where both are there.
pub open spec fn join(a: Option<Seq<u8>>, b: Option<Seq<u8>>) -> Option<Seq<u8>> {
    match (a, b) {
        (Some(x), Some(y)) => Some(x + y),
        _ => None,
    }
}

/// Reads one signed byte from the front of `s`.
pub open spec fn take_i8(s: Seq<u8>) -> Parsed<i8> {
    if s.len() < 1 {
        Err(NbsErrorKind::IoError)
    } else {
        Ok((byte_as_i8(s[0]), s.skip(1)))
    }
}

/// Reads one flag from the front of `s`: true for the byte 1, false for any
/// other.
pub open spec fn take_flag(s: Seq<u8>) -> Parsed<bool> {
    match take_i8(s) {
        Ok((v, rest)) => Ok((v == 1, rest)),
        Err(k) => Err(k),
    }
}

/// Reads one 16-bit number from the front of `s`.
pub open spec fn take_i16(s: Seq<u8>) -> Parsed<i16> {
    if s.len() < 2 {
        Err(NbsErrorKind::IoError)
    } else {
        Ok((le_i16(s), s.skip(2)))
    }
}

/// Reads one 32-bit number from the front of `s`.
pub open spec fn take_i32(s: Seq<u8>) -> Parsed<i32> {
    if s.len() < 4 {
        Err(NbsErrorKind::IoError)
    } else {
        Ok((le_i32(s), s.skip(4)))
    }
}

/// Reads one length-prefixed string from the front of `s`. A negative length
/// is malformed, a length beyond the end of `s` is a source that ended too
/// early, and bytes that are no UTF-8 are a string failure, in this order.
#[verifier::opaque]
pub open spec fn take_string(s: Seq<u8>) -> Parsed<Seq<char>> {
    match take_i32(s) {
        Err(k) => Err(k),
        Ok((len, rest)) => {
            if len < 0 {
                Err(NbsErrorKind::InvalidFormat)
            } else if rest.len() < len {
                Err(NbsErrorKind::IoError)
            } else if !valid_utf8(rest.subrange(0, len as int)) {
                Err(NbsErrorKind::InvalidString)
            } else {
                Ok((decode_utf8(rest.subrange(0, len as int)), rest.skip(len as int)))
            }
        },
    }
}

/// A 16-bit number has two bytes, and reading them gives the number back,
/// whatever follows them.
pub proof fn lemma_i16_round_trip(v: i16, tail: Seq<u8>)
    ensures
        i16_le(v).len() == 2,
        take_i16(i16_le(v) + tail) == Ok::<(i16, Seq<u8>), NbsErrorKind>((v, tail)),
{
    let s = i16_le(v) + tail;
    assert(s.skip(2) =~= tail);
}

/// The four bytes of a 32-bit number are its little-endian form.
proof fn lemma_le_i32_of_bytes(v: i32)
    ensures
        i32_le(v).len() == 4,
        le_i32(i32_le(v)) == v,
{
    let u = if v >= 0 {
        v as int
    } else {
        v + 0x1_0000_0000
    };
    let q1 = u / 0x100;
    let q2 = q1 / 0x100;
    let q3 = q2 / 0x100;
    assert(q2 == u / 0x1_0000) by {
        vstd::arithmetic::div_mod::lemma_div_denominator(u, 0x100, 0x100);
    }
    assert(q3 == u / 0x100_0000) by {
        vstd::arithmetic::div_mod::lemma_div_denominator(u, 0x1_0000, 0x100);
    }
}

/// A 32-bit number has four bytes, and reading them gives the number back,
/// whatever follows them.
pub proof fn lemma_i32_round_trip(v: i32, tail: Seq<u8>)
    ensures
        i32_le(v).len() == 4,
        take_i32(i32_le(v) + tail) == Ok::<(i32, Seq<u8>), NbsErrorKind>((v, tail)),
{
    lemma_le_i32_of_bytes(v);
    let b = i32_le(v);
    let s = b + tail;
    assert(s.skip(4) =~= tail);
}

/// Reading the byte of a signed number gives the number back, whatever
/// follows it.
pub proof fn lemma_i8_bytes_round_trip(v: i8, tail: Seq<u8>)
    ensures
        take_i8(i8_bytes(v) + tail) == Ok::<(i8, Seq<u8>), NbsErrorKind>((v, tail)),
{
    let s = i8_bytes(v) + tail;
    assert(s.skip(1) =~= tail);
}

/// Reading the byte of a flag gives the flag back, whatever follows it.
pub proof fn lemma_flag_round_trip(b: bool, tail: Seq<u8>)
    ensures
        take_flag(flag_bytes(b) + tail) == Ok::<(bool, Seq<u8>), NbsErrorKind>((b, tail)),
{
    lemma_i8_bytes_round_trip(
        if b {
            1i8
        } else {
            0i8
        },
        tail,
    );
}

/// Reading a string from its wire form gives the string back, whatever
/// follows it.
pub proof fn lemma_string_round_trip(s: Seq<char>, tail: Seq<u8>)
    requires
        string_bytes(s) is Some,
    ensures
        take_string(string_bytes(s).unwrap() + tail) == Ok::<(Seq<char>, Seq<u8>), NbsErrorKind>(
            (s, tail),
        ),
{
    reveal(string_bytes);
    reveal(take_string);
    let body = encode_utf8(s);
    let len = body.len() as i32;
    let wire = string_bytes(s).unwrap() + tail;
    lemma_i32_round_trip(len, body + tail);
    assert(wire =~= i32_le(len) + (body + tail));
    assert((body + tail).subrange(0, len as int) =~= body);
    assert((body + tail).skip(len as int) =~= tail);
    vstd::utf8::encode_utf8_valid_utf8(s);
    vstd::utf8::encode_utf8_decode_utf8(s);
}

/// A string field of length zero is the empty string, and no failure.
pub proof fn lemma_empty_string(tail: Seq<u8>)
    ensures
        take_string(i32_le(0) + tail) == Ok::<(Seq<char>, Seq<u8>), NbsErrorKind>(
            (Seq::empty(), tail),
        ),
{
    reveal(string_bytes);
    let none = Seq::<char>::empty();
    lemma_string_round_trip(none, tail);
}

/// `byteorder::LittleEndian::read_i16` (a method of `byteorder::ByteOrder`):
/// the first two bytes of `buf`, low byte first, taken as a two's-complement
/// number. It panics on a slice of fewer than two bytes.
#[verifier::external_body]
fn le_read_i16(buf: &[u8]) -> (v: i16)
    requires
        buf@.len() >= 2,
    ensures
        v == le_i16(buf@),
{
    LittleEndian::read_i16(buf)
}

/// `byteorder::LittleEndian::read_i32` (a method of `byteorder::ByteOrder`):
/// the first four bytes of `buf`, low byte first, taken as a two's-complement
/// number. It panics on a slice of fewer than four bytes.
#[verifier::external_body]
fn le_read_i32(buf: &[u8]) -> (v: i32)
    requires
        buf@.len() >= 4,
    ensures
        v == le_i32(buf@),
{
    LittleEndian::read_i32(buf)
}

/// `byteorder::LittleEndian::write_i16` (a method of `byteorder::ByteOrder`)
/// on a buffer of two bytes: it fills them with `n`, low byte first.
#[verifier::external_body]
fn le_write_i16(n: i16) -> (bytes: [u8; 2])
    ensures
        bytes@ == i16_le(n),
{
    let mut buf = [0u8; 2];
    LittleEndian::write_i16(&mut buf, n);
    buf
}

/// `byteorder::LittleEndian::write_i32` (a method of `byteorder::ByteOrder`)
/// on a buffer of four bytes: it fills them with `n`, low byte first.
#[verifier::external_body]
fn le_write_i32(n: i32) -> (bytes: [u8; 4])
    ensures
        bytes@ == i32_le(n),
{
    let mut buf = [0u8; 4];
    LittleEndian::write_i32(&mut buf, n);
    buf
}

/// `String::from_utf8` of std: it succeeds exactly on well-formed UTF-8, and
/// the string then holds the characters that the bytes encode.
pub assume_specification[ String::from_utf8 ](vec: Vec<u8>) -> (r: Result<
    String,
    std::string::FromUtf8Error,
>)
    ensures
        r is Ok <==> valid_utf8(vec@),
        r matches Ok(s) ==> s@ == decode_utf8(vec@),
;

/// A cursor over a byte slice.
#[derive(Clone, Copy, Debug)]
pub struct ByteReader<'a> {
    data: &'a [u8],
    pos: usize,
}

impl<'a> ByteReader<'a> {
    #[verifier::type_invariant]
    /// The cursor never lies behind the end of the slice.
    spec fn within(self) -> bool {
        self.pos <= self.data@.len()
    }

    /// The bytes that have not been read yet.
    pub closed spec fn remaining(&self) -> Seq<u8> {
        self.data@.skip(self.pos as int)
    }

    /// A reader at the start of `data`.
    pub fn new(data: &'a [u8]) -> (r: Self)
        ensures
            r.remaining() == data@,
    {
        ByteReader { data, pos: 0 }
    }

    /// Reads one signed byte. On failure the reader stays where it was.
    pub fn read_i8(&mut self) -> (r: Result<i8, NbsError>)
        ensures
            match take_i8(old(self).remaining()) {
                Ok((v, rest)) => r matches Ok(x) && x == v && final(self).remaining() == rest,
                Err(k) => r matches Err(e) && e.kind() == k && *final(self) == *old(self),
            },
    {
        proof {
            use_type_invariant(&*self);
        }
        if self.pos < self.data.len() {
            let b = self.data[self.pos];
            let v: i8 = #[verifier::truncate]
            (b as i8);
            assert(v == byte_as_i8(b)) by (bit_vector)
                requires
                    v == b as i8,
            ;
            self.pos = self.pos + 1;
            Ok(v)
        } else {
            Err(NbsError::IoError(unexpected_eof()))
        }
    }

    /// Reads one flag: true for the byte 1. On failure the reader stays where
    /// it was.
    pub fn read_flag(&mut self) -> (r: Result<bool, NbsError>)
        ensures
            match take_flag(old(self).remaining()) {
                Ok((v, rest)) => r matches Ok(x) && x == v && final(self).remaining() == rest,
                Err(k) => r matches Err(e) && e.kind() == k && *final(self) == *old(self),
            },
    {
        let v = self.read_i8()?;
        Ok(v == 1)
    }

    /// Reads one little-endian 16-bit number. On failure the reader stays
    /// where it was.
    pub fn read_i16(&mut self) -> (r: Result<i16, NbsError>)
        ensures
            match take_i16(old(self).remaining()) {
                Ok((v, rest)) => r matches Ok(x) && x == v && final(self).remaining() == rest,
                Err(k) => r matches Err(e) && e.kind() == k && *final(self) == *old(self),
            },
    {
        proof {
            use_type_invariant(&*self);
        }
        if self.data.len() - self.pos >= 2 {
            let v = le_read_i16(slice_subrange(self.data, self.pos, self.pos + 2));
            self.pos = self.pos + 2;
            Ok(v)
        } else {
            Err(NbsError::IoError(unexpected_eof()))
        }
    }

    /// Reads one little-endian 32-bit number. On failure the reader stays
    /// where it was.
    pub fn read_i32(&mut self) -> (r: Result<i32, NbsError>)
        ensures
            match take_i32(old(self).remaining()) {
                Ok((v, rest)) => r matches Ok(x) && x == v && final(self).remaining() == rest,
                Err(k) => r matches Err(e) && e.kind() == k && *final(self) == *old(self),
            },
    {
        proof {
            use_type_invariant(&*self);
        }
        if self.data.len() - self.pos >= 4 {
            let v = le_read_i32(slice_subrange(self.data, self.pos, self.pos + 4));
            self.pos = self.pos + 4;
            Ok(v)
        } else {
            Err(NbsError::IoError(unexpected_eof()))
        }
    }

    /// Reads one length-prefixed UTF-8 string. On failure the reader stays
    /// where it was.
    pub fn read_string(&mut self) -> (r: Result<String, NbsError>)
        ensures
            match take_string(old(self).remaining()) {
                Ok((v, rest)) => r matches Ok(x) && x@ == v && final(self).remaining() == rest,
                Err(k) => r matches Err(e) && e.kind() == k && *final(self) == *old(self),
            },
    {
        proof {
            reveal(take_string);
        }
        let start = *self;
        let len = self.read_i32()?;
        proof {
            use_type_invariant(&*self);
        }
        if len < 0 {
            *self = start;
            return Err(NbsError::InvalidFormat);
        }
        let n = len as usize;
        if self.data.len() - self.pos < n {
            *self = start;
            return Err(NbsError::IoError(unexpected_eof()));
        }
        let body = slice_to_vec(slice_subrange(self.data, self.pos, self.pos + n));
        assert(body@ =~= self.remaining().subrange(0, len as int));
        match String::from_utf8(body) {
            Ok(s) => {
                assert(self.data@.skip(self.pos as int).skip(n as int) =~= self.data@.skip(
                    self.pos + n,
                ));
                self.pos = self.pos + n;
                Ok(s)
            },
            Err(e) => {
                *self = start;
                Err(NbsError::InvalidString(e))
            },
        }
    }
}

/// Appends one signed byte.
pub fn write_i8(out: &mut Vec<u8>, v: i8)
    ensures
        final(out)@ == old(out)@ + i8_bytes(v),
{
    let b: u8 = #[verifier::truncate]
    (v as u8);
    assert(b == i8_as_byte(v)) by (bit_vector)
        requires
            b == v as u8,
    ;
    out.push(b);
}

/// Appends one flag: the byte 1 for true, 0 for false.
pub fn write_flag(out: &mut Vec<u8>, b: bool)
    ensures
        final(out)@ == old(out)@ + flag_bytes(b),
{
    write_i8(
        out,
        if b {
            1
        } else {
            0
        },
    );
}

/// Appends one 16-bit number, low byte first.
pub fn write_i16(out: &mut Vec<u8>, v: i16)
    ensures
        final(out)@ == old(out)@ + i16_le(v),
{
    let bytes = le_write_i16(v);
    out.push(bytes[0]);
    out.push(bytes[1]);
}

/// Appends one 32-bit number, low byte first.
pub fn write_i32(out: &mut Vec<u8>, v: i32)
    ensures
        final(out)@ == old(out)@ + i32_le(v),
{
    let bytes = le_write_i32(v);
    out.push(bytes[0]);
    out.push(bytes[1]);
    out.push(bytes[2]);
    out.push(bytes[3]);
}

/// Appends one string, its length first. A string whose UTF-8 form is longer
/// than `i32::MAX` cannot be written: `out` is then left as it was.
pub fn write_string(out: &mut Vec<u8>, s: &str) -> (r: Result<(), NbsError>)
    ensures
        match string_bytes(s@) {
            Some(b) => r is Ok && final(out)@ == old(out)@ + b,
            None => r matches Err(e) && e is InvalidFormat && final(out)@ == old(out)@,
        },
{
    proof {
        reveal(string_bytes);
    }
    let body = s.as_bytes();
    let n = body.len();
    if n > 0x7fff_ffff {
        return Err(NbsError::InvalidFormat);
    }
    write_i32(out, n as i32);
    let ghost head = out@;
    let mut i: usize = 0;
    while i < n
        invariant
            i <= n,
            n == body@.len(),
            out@ == head + body@.subrange(0, i as int),
        decreases n - i,
    {
        out.push(body[i]);
        i = i + 1;
    }
    Ok(())
}

} // verus!
