//! Fixed-width little-endian words, the numeric building block of every
//! packet payload, and the calls into the serialiser that produce and read
//! them.

use vstd::prelude::*;
use vstd::string::StringSliceAdditionalSpecFns;
use vstd::utf8::valid_utf8;

verus! {

/// One more than the largest value of a 32-bit word.
pub open spec fn word_modulus() -> int {
    0x1_0000_0000
}

/// The four bytes of an unsigned word, least significant first.
#[verifier::opaque]
pub open spec fn word_bytes(w: int) -> Seq<u8> {
    seq![
        (w % 256) as u8,
        ((w / 256) % 256) as u8,
        ((w / 65536) % 256) as u8,
        ((w / 16777216) % 256) as u8,
    ]
}

/// The unsigned word that the first four bytes of `b` spell, least
/// significant first.
#[verifier::opaque]
pub open spec fn word_of(b: Seq<u8>) -> int {
    b[0] as int + 256 * (b[1] as int) + 65536 * (b[2] as int) + 16777216 * (b[3] as int)
}

/// The unsigned word that carries a signed value in two's complement.
pub open spec fn signed_to_word(v: int) -> int {
    if v < 0 {
        v + word_modulus()
    } else {
        v
    }
}

/// The signed value that an unsigned word carries in two's complement.
pub open spec fn word_to_signed(w: int) -> int {
    if w >= 0x8000_0000 {
        w - word_modulus()
    } else {
        w
    }
}

/// Wire bytes of a signed 32-bit value.
pub open spec fn i32_bytes(v: i32) -> Seq<u8> {
    word_bytes(signed_to_word(v as int))
}

/// Wire bytes of an unsigned 32-bit value.
pub open spec fn u32_bytes(v: u32) -> Seq<u8> {
    word_bytes(v as int)
}

/// The signed value stored in the four bytes of `data` that start at `at`.
pub open spec fn i32_at(data: Seq<u8>, at: int) -> int {
    word_to_signed(word_of(data.subrange(at, at + 4)))
}

/// The unsigned value stored in the four bytes of `data` that start at `at`.
pub open spec fn u32_at(data: Seq<u8>, at: int) -> int {
    word_of(data.subrange(at, at + 4))
}

/// Splitting a word into bytes and reading it back gives the word.
pub proof fn lemma_word_round_trip(w: int)
    requires
        0 <= w < word_modulus(),
    ensures
        word_bytes(w).len() == 4,
        word_of(word_bytes(w)) == w,
{
    reveal(word_bytes);
    reveal(word_of);
    let q1 = w / 256;
    let q2 = w / 65536;
    let q3 = w / 16777216;
    assert(w == 256 * q1 + w % 256);
    assert(q1 == 256 * q2 + q1 % 256) by {
        assert(q1 / 256 == q2);
    }
    assert(q2 == 256 * q3 + q2 % 256) by {
        assert(q2 / 256 == q3);
    }
    assert(0 <= q3 < 256);
    assert(q3 % 256 == q3);
}

/// Reading four bytes as a word and splitting it again gives the bytes.
pub proof fn lemma_bytes_round_trip(b: Seq<u8>)
    requires
        b.len() == 4,
    ensures
        0 <= word_of(b) < word_modulus(),
        word_bytes(word_of(b)) =~= b,
{
    reveal(word_bytes);
    reveal(word_of);
    let w = word_of(b);
    let (b0, b1, b2, b3) = (b[0] as int, b[1] as int, b[2] as int, b[3] as int);
    let q1 = b1 + 256 * b2 + 65536 * b3;
    let q2 = b2 + 256 * b3;
    assert(w == 256 * q1 + b0);
    assert(w / 256 == q1 && w % 256 == b0);
    assert(w == 65536 * q2 + (b0 + 256 * b1));
    assert(w / 65536 == q2);
    assert(q2 % 256 == b2);
    assert(w == 16777216 * b3 + (b0 + 256 * b1 + 65536 * b2));
    assert(w / 16777216 == b3);
    assert(q1 % 256 == b1);
}

/// Two's complement is a bijection between `i32` and the 32-bit words.
pub proof fn lemma_signed_round_trip(v: int, w: int)
    ensures
        i32::MIN <= v <= i32::MAX ==> 0 <= signed_to_word(v) < word_modulus() && word_to_signed(
            signed_to_word(v),
        ) == v,
        0 <= w < word_modulus() ==> i32::MIN <= word_to_signed(w) <= i32::MAX && signed_to_word(
            word_to_signed(w),
        ) == w,
{
}

/// The error type of the serialiser; nothing is read from it.
#[verifier::external_type_specification]
#[verifier::external_body]
pub struct ExSerialiserErrorKind(bincode::ErrorKind);

/// `bincode::serialize` on an `i32`. With the fixed-width little-endian
/// configuration that this entry point uses, the value is cast to `u32` and
/// written as four bytes, least significant first; writing into a fresh
/// vector without a size limit does not fail.
#[verifier::external_body]
fn serialize_i32(v: i32) -> (r: Result<Vec<u8>, bincode::Error>)
    ensures
        r is Ok,
        r->Ok_0@ == i32_bytes(v),
{
    bincode::serialize(&v)
}

/// `bincode::serialize` on a `u32`: four bytes, least significant first;
/// it does not fail.
#[verifier::external_body]
fn serialize_u32(v: u32) -> (r: Result<Vec<u8>, bincode::Error>)
    ensures
        r is Ok,
        r->Ok_0@ == u32_bytes(v),
{
    bincode::serialize(&v)
}

/// `bincode::deserialize` to an `i32`. It reads the first four bytes as a
/// little-endian `u32` and casts it to `i32`; bytes after them are ignored,
/// and a slice shorter than four bytes is an error.
#[verifier::external_body]
fn deserialize_i32(bytes: &[u8]) -> (r: Result<i32, bincode::Error>)
    ensures
        r is Ok <==> bytes@.len() >= 4,
        r is Ok ==> r->Ok_0 == word_to_signed(word_of(bytes@)),
{
    bincode::deserialize(bytes)
}

/// `bincode::deserialize` to a `u32`: the first four bytes, least
/// significant first; a slice shorter than four bytes is an error.
#[verifier::external_body]
fn deserialize_u32(bytes: &[u8]) -> (r: Result<u32, bincode::Error>)
    ensures
        r is Ok <==> bytes@.len() >= 4,
        r is Ok ==> r->Ok_0 == word_of(bytes@),
{
    bincode::deserialize(bytes)
}

/// The error of a failed UTF-8 check; nothing is read from it.
#[verifier::external_type_specification]
#[verifier::external_body]
pub struct ExUtf8Error(core::str::Utf8Error);

/// `core::str::from_utf8` succeeds exactly on the byte sequences that are
/// valid UTF-8, and the string slice it returns has those very bytes.
pub assume_specification[ core::str::from_utf8 ](v: &[u8]) -> (r: Result<
    &str,
    core::str::Utf8Error,
>)
    ensures
        r is Ok <==> valid_utf8(v@),
        r is Ok ==> r->Ok_0.spec_bytes() == v@,
;

/// Appends the wire bytes of `v` to `buf`.
pub fn put_i32(buf: &mut Vec<u8>, v: i32)
    ensures
        final(buf)@ == old(buf)@ + i32_bytes(v),
{
    match serialize_i32(v) {
        Ok(mut bytes) => {
            buf.append(&mut bytes);
        },
        Err(_) => {},
    }
}

/// Appends the wire bytes of `v` to `buf`.
pub fn put_u32(buf: &mut Vec<u8>, v: u32)
    ensures
        final(buf)@ == old(buf)@ + u32_bytes(v),
{
    match serialize_u32(v) {
        Ok(mut bytes) => {
            buf.append(&mut bytes);
        },
        Err(_) => {},
    }
}

/// Reads the signed value stored at `at`, if four bytes are there.
pub fn read_i32(data: &[u8], at: usize) -> (r: Option<i32>)
    ensures
        r is Some <==> at + 4 <= data@.len(),
        r is Some ==> r->Some_0 == i32_at(data@, at as int),
{
    if data.len() < 4 || at > data.len() - 4 {
        return None;
    }
    let field = vstd::slice::slice_subrange(data, at, at + 4);
    match deserialize_i32(field) {
        Ok(v) => Some(v),
        Err(_) => None,
    }
}

/// Reads the unsigned value stored at `at`, if four bytes are there.
pub fn read_u32(data: &[u8], at: usize) -> (r: Option<u32>)
    ensures
        r is Some <==> at + 4 <= data@.len(),
        r is Some ==> r->Some_0 == u32_at(data@, at as int),
{
    if data.len() < 4 || at > data.len() - 4 {
        return None;
    }
    let field = vstd::slice::slice_subrange(data, at, at + 4);
    match deserialize_u32(field) {
        Ok(v) => Some(v),
        Err(_) => None,
    }
}

} // verus!
