//! Canonical byte encoding and digests.
//!
//! Everything that is hashed in this crate (transactions, block headers,
//! transaction lists) is first laid out by the functions here: fields in a
//! fixed order, integers as little-endian bytes, strings as their UTF-8
//! bytes closed by a `0xff` terminator (a byte that valid UTF-8 never
//! contains), so that equal structures always produce equal bytes. The
//! digest of such a byte string is its SHA-256 hash, rendered as 64
//! lower-case hex characters.

use vstd::prelude::*;
use vstd::bytes::{spec_u64_to_le_bytes, u64_to_le_bytes};
use vstd::string::StringSliceAdditionalSpecFns;
use vstd::utf8::encode_utf8;

verus! {

/// The SHA-256 digest of a byte string, as computed by the `sha2` crate.
/// The result depends on the input bytes alone.
pub uninterp spec fn sha256_of(data: Seq<u8>) -> Seq<u8>;

/// Relies on `sha2::Sha256`: the digest of `data` is a pure function of
/// `data` and is 32 bytes long.
#[verifier::external_body]
pub fn sha256(data: &[u8]) -> (r: Vec<u8>)
    ensures
        r@ == sha256_of(data@),
        r@.len() == 32,
{
    <sha2::Sha256 as sha2::Digest>::digest(data).to_vec()
}

/// Relies on `String::push`: appends one character at the end.
#[verifier::external_body]
fn push_char(s: &mut String, c: char)
    ensures
        final(s)@ == old(s)@.push(c),
{
    s.push(c)
}

/// The lower-case hex character for a value below 16.
pub open spec fn hex_digit(v: u8) -> char
    recommends
        v < 16,
{
    if v < 10 {
        (('0' as u8) + v) as char
    } else {
        (('a' as u8) + (v - 10)) as char
    }
}

/// Lower-case hex rendering of a byte string: two characters per byte,
/// high nibble first.
pub open spec fn hex_of(bytes: Seq<u8>) -> Seq<char>
    decreases bytes.len(),
{
    if bytes.len() == 0 {
        Seq::<char>::empty()
    } else {
        hex_of(bytes.drop_last()) + seq![
            hex_digit(bytes.last() >> 4),
            hex_digit(bytes.last() & 0x0f),
        ]
    }
}

pub proof fn lemma_hex_of_len(bytes: Seq<u8>)
    ensures
        hex_of(bytes).len() == 2 * bytes.len(),
    decreases bytes.len(),
{
    if bytes.len() > 0 {
        lemma_hex_of_len(bytes.drop_last());
    }
}

/// Lower-case hex rendering of a byte string.
pub fn to_hex(bytes: &[u8]) -> (r: String)
    ensures
        r@ == hex_of(bytes@),
{
    let mut r = String::new();
    let mut i: usize = 0;
    while i < bytes.len()
        invariant
            i <= bytes@.len(),
            r@ == hex_of(bytes@.take(i as int)),
        decreases bytes@.len() - i,
    {
        let b = bytes[i];
        let hi = b >> 4;
        let lo = b & 0x0f;
        assert(b >> 4 < 16 && b & 0x0f < 16) by (bit_vector);
        push_char(&mut r, hex_digit_char(hi));
        push_char(&mut r, hex_digit_char(lo));
        proof {
            assert(bytes@.take(i + 1).drop_last() =~= bytes@.take(i as int));
            assert(bytes@.take(i + 1).last() == bytes@[i as int]);
        }
        i = i + 1;
    }
    proof {
        assert(bytes@.take(bytes@.len() as int) =~= bytes@);
    }
    r
}

/// The lower-case hex character for a value below 16.
fn hex_digit_char(v: u8) -> (c: char)
    requires
        v < 16,
    ensures
        c == hex_digit(v),
{
    if v < 10 {
        (('0' as u8) + v) as char
    } else {
        (('a' as u8) + (v - 10)) as char
    }
}

/// The digest of a byte string: its SHA-256 hash as 64 lower-case hex
/// characters.
pub open spec fn digest_of(data: Seq<u8>) -> Seq<char> {
    hex_of(sha256_of(data))
}

/// The digest of a byte string.
pub fn digest(data: &[u8]) -> (r: String)
    ensures
        r@ == digest_of(data@),
        r@.len() == 64,
{
    let h = sha256(data);
    let r = to_hex(h.as_slice());
    proof {
        lemma_hex_of_len(h@);
    }
    r
}

/// The all-zero sentinel digest: 64 `'0'` characters.
pub open spec fn zero_digest() -> Seq<char> {
    Seq::new(64, |i: int| '0')
}

/// The all-zero sentinel digest.
pub fn zero_digest_string() -> (r: String)
    ensures
        r@ == zero_digest(),
{
    let mut r = String::new();
    let mut i: usize = 0;
    proof {
        reveal_strlit("0");
    }
    while i < 64
        invariant
            i <= 64,
            r@ =~= Seq::new(i as nat, |j: int| '0'),
            "0"@.len() == 1 && "0"@[0] == '0',
        decreases 64 - i,
    {
        push_char(&mut r, '0');
        i = i + 1;
    }
    proof {
        assert(r@ =~= zero_digest());
    }
    r
}

/// Appends a slice to a byte buffer.
pub fn append_bytes(buf: &mut Vec<u8>, data: &[u8])
    ensures
        final(buf)@ == old(buf)@ + data@,
{
    let mut i: usize = 0;
    while i < data.len()
        invariant
            i <= data@.len(),
            buf@ == old(buf)@ + data@.take(i as int),
        decreases data@.len() - i,
    {
        buf.push(data[i]);
        proof {
            assert(data@.take(i + 1) =~= data@.take(i as int).push(data@[i as int]));
            assert(old(buf)@ + data@.take(i + 1) =~= (old(buf)@ + data@.take(i as int)).push(
                data@[i as int],
            ));
        }
        i = i + 1;
    }
    proof {
        assert(data@.take(data@.len() as int) =~= data@);
    }
}

/// The canonical encoding of a string field: its UTF-8 bytes closed by a
/// `0xff` terminator.
pub open spec fn str_field(s: Seq<char>) -> Seq<u8> {
    encode_utf8(s) + seq![0xffu8]
}

/// Appends the canonical encoding of a string field.
pub fn append_str_field(buf: &mut Vec<u8>, s: &str)
    ensures
        final(buf)@ == old(buf)@ + str_field(s@),
{
    let b = s.as_bytes();
    append_bytes(buf, b);
    buf.push(0xff);
    proof {
        assert(buf@ =~= old(buf)@ + str_field(s@));
    }
}

/// The canonical encoding of a `u64` field: eight little-endian bytes.
pub open spec fn u64_field(x: u64) -> Seq<u8> {
    spec_u64_to_le_bytes(x)
}

/// Appends the canonical encoding of a `u64` field.
pub fn append_u64_field(buf: &mut Vec<u8>, x: u64)
    ensures
        final(buf)@ == old(buf)@ + u64_field(x),
{
    let mut b = u64_to_le_bytes(x);
    buf.append(&mut b);
}

/// The canonical encoding of an `i64` field: a sign byte, then eight
/// little-endian magnitude bytes (`m` encodes `m` when the sign byte is 0
/// and `-1 - m` when it is 1, so every value has exactly one encoding).
pub open spec fn i64_field(x: i64) -> Seq<u8> {
    if x >= 0 {
        seq![0u8] + spec_u64_to_le_bytes(x as u64)
    } else {
        seq![1u8] + spec_u64_to_le_bytes((-1 - x) as u64)
    }
}

/// Appends the canonical encoding of an `i64` field.
pub fn append_i64_field(buf: &mut Vec<u8>, x: i64)
    ensures
        final(buf)@ == old(buf)@ + i64_field(x),
{
    if x >= 0 {
        buf.push(0u8);
        let mut b = u64_to_le_bytes(x as u64);
        buf.append(&mut b);
        proof {
            assert(buf@ =~= old(buf)@ + i64_field(x));
        }
    } else {
        buf.push(1u8);
        let m = -1 - x;
        let mut b = u64_to_le_bytes(m as u64);
        buf.append(&mut b);
        proof {
            assert(buf@ =~= old(buf)@ + i64_field(x));
        }
    }
}


/// No byte of a scalar's UTF-8 encoding is `0xff`.
proof fn lemma_encode_scalar_no_ff(v: u32)
    ensures
        forall|i: int|
            0 <= i < encode_utf8_scalar_len(v) ==> vstd::utf8::encode_scalar(v)[i] != 0xff,
{
    assert(((v & 0x7F) as u8) != 0xff) by (bit_vector);
    assert((0xC0u8 | ((v >> 6) & 0x1F) as u8) != 0xff) by (bit_vector);
    assert((0xE0u8 | ((v >> 12) & 0x0F) as u8) != 0xff) by (bit_vector);
    assert((0xF0u8 | ((v >> 18) & 0x7) as u8) != 0xff) by (bit_vector);
    assert((0x80u8 | (v & 0x3F) as u8) != 0xff) by (bit_vector);
    assert((0x80u8 | ((v >> 6) & 0x3F) as u8) != 0xff) by (bit_vector);
    assert((0x80u8 | ((v >> 12) & 0x3F) as u8) != 0xff) by (bit_vector);
}

/// The length of a scalar's UTF-8 encoding.
spec fn encode_utf8_scalar_len(v: u32) -> int {
    vstd::utf8::encode_scalar(v).len() as int
}

/// No byte of a UTF-8 encoded string is `0xff`.
proof fn lemma_encode_utf8_no_ff(s: Seq<char>)
    ensures
        forall|i: int| 0 <= i < encode_utf8(s).len() ==> encode_utf8(s)[i] != 0xff,
    decreases s.len(),
{
    if s.len() > 0 {
        let head = vstd::utf8::encode_scalar(s[0] as u32);
        let rest = encode_utf8(s.drop_first());
        lemma_encode_scalar_no_ff(s[0] as u32);
        lemma_encode_utf8_no_ff(s.drop_first());
        assert(encode_utf8(s) == head + rest);
        assert forall|i: int| 0 <= i < encode_utf8(s).len() implies encode_utf8(s)[i] != 0xff by {
            if i < head.len() {
                assert((head + rest)[i] == head[i]);
            } else {
                assert((head + rest)[i] == rest[i - head.len()]);
            }
        }
    }
}

/// The string-field encoding is prefix-free: whatever follows two equal
/// encoded streams, equal streams mean equal strings and equal tails,
/// because the terminator byte never occurs inside a UTF-8 encoding.
pub proof fn lemma_str_field_injective(s1: Seq<char>, s2: Seq<char>, r1: Seq<u8>, r2: Seq<u8>)
    requires
        str_field(s1) + r1 == str_field(s2) + r2,
    ensures
        s1 == s2,
        r1 == r2,
{
    let b1 = encode_utf8(s1);
    let b2 = encode_utf8(s2);
    lemma_encode_utf8_no_ff(s1);
    lemma_encode_utf8_no_ff(s2);
    let whole1 = str_field(s1) + r1;
    let whole2 = str_field(s2) + r2;
    assert(whole1 == whole2);
    if b1.len() < b2.len() {
        assert(whole1[b1.len() as int] == 0xff);
        assert(whole2[b1.len() as int] == b2[b1.len() as int]);
        assert(false);
    }
    if b2.len() < b1.len() {
        assert(whole2[b2.len() as int] == 0xff);
        assert(whole1[b2.len() as int] == b1[b2.len() as int]);
        assert(false);
    }
    assert forall|i: int| 0 <= i < b1.len() implies b1[i] == b2[i] by {
        assert(whole1[i] == b1[i]);
        assert(whole2[i] == b2[i]);
    }
    assert(b1 =~= b2);
    vstd::utf8::encode_utf8_decode_utf8(s1);
    vstd::utf8::encode_utf8_decode_utf8(s2);
    assert(str_field(s1).len() == b1.len() + 1);
    assert(str_field(s2).len() == b2.len() + 1);
    assert(whole1.len() == str_field(s1).len() + r1.len());
    assert(whole2.len() == str_field(s2).len() + r2.len());
    assert(r1.len() == r2.len());
    assert forall|i: int| 0 <= i < r1.len() implies r1[i] == r2[i] by {
        assert(whole1[b1.len() + 1 + i] == r1[i]);
        assert(whole2[b2.len() + 1 + i] == r2[i]);
    }
    assert(r1 =~= r2);
}

/// The `u64` field encoding has a fixed width, so equal streams mean
/// equal values and equal tails.
pub proof fn lemma_u64_field_injective(x1: u64, x2: u64, r1: Seq<u8>, r2: Seq<u8>)
    requires
        u64_field(x1) + r1 == u64_field(x2) + r2,
    ensures
        x1 == x2,
        r1 == r2,
{
    vstd::bytes::lemma_auto_spec_u64_to_from_le_bytes();
    let whole1 = u64_field(x1) + r1;
    let whole2 = u64_field(x2) + r2;
    assert(whole1 == whole2);
    assert forall|i: int| 0 <= i < 8 implies u64_field(x1)[i] == u64_field(x2)[i] by {
        assert(whole1[i] == u64_field(x1)[i]);
        assert(whole2[i] == u64_field(x2)[i]);
    }
    assert(spec_u64_to_le_bytes(x1) =~= spec_u64_to_le_bytes(x2));
    assert(u64_field(x1).len() == 8 && u64_field(x2).len() == 8);
    assert(whole1.len() == u64_field(x1).len() + r1.len());
    assert(whole2.len() == u64_field(x2).len() + r2.len());
    assert(r1.len() == r2.len());
    assert forall|i: int| 0 <= i < r1.len() implies r1[i] == r2[i] by {
        assert(whole1[8 + i] == r1[i]);
        assert(whole2[8 + i] == r2[i]);
    }
    assert(r1 =~= r2);
}

/// The `i64` field encoding (sign byte, then magnitude) gives every
/// value exactly one encoding, so equal streams mean equal values and
/// equal tails.
pub proof fn lemma_i64_field_injective(x1: i64, x2: i64, r1: Seq<u8>, r2: Seq<u8>)
    requires
        i64_field(x1) + r1 == i64_field(x2) + r2,
    ensures
        x1 == x2,
        r1 == r2,
{
    let whole1 = i64_field(x1) + r1;
    let whole2 = i64_field(x2) + r2;
    assert(whole1 == whole2);
    assert(whole1[0] == i64_field(x1)[0]);
    assert(whole2[0] == i64_field(x2)[0]);
    let m1: u64 = if x1 >= 0 { x1 as u64 } else { (-1 - x1) as u64 };
    let m2: u64 = if x2 >= 0 { x2 as u64 } else { (-1 - x2) as u64 };
    assert((x1 >= 0) == (x2 >= 0));
    vstd::bytes::lemma_auto_spec_u64_to_from_le_bytes();
    assert forall|i: int| 0 <= i < 8 implies spec_u64_to_le_bytes(m1)[i] == spec_u64_to_le_bytes(
        m2,
    )[i] by {
        assert(whole1[1 + i] == spec_u64_to_le_bytes(m1)[i]);
        assert(whole2[1 + i] == spec_u64_to_le_bytes(m2)[i]);
    }
    assert(spec_u64_to_le_bytes(m1) =~= spec_u64_to_le_bytes(m2));
    assert(m1 == m2);
    assert(i64_field(x1).len() == 9 && i64_field(x2).len() == 9);
    assert(whole1.len() == i64_field(x1).len() + r1.len());
    assert(whole2.len() == i64_field(x2).len() + r2.len());
    assert(r1.len() == r2.len());
    assert forall|i: int| 0 <= i < r1.len() implies r1[i] == r2[i] by {
        assert(whole1[9 + i] == r1[i]);
        assert(whole2[9 + i] == r2[i]);
    }
    assert(r1 =~= r2);
}

} // verus!
