//! SHA-256 digests and their hexadecimal form.
use vstd::prelude::*;
use vstd::string::*;

use crate::text::{digit_char, slice_text, to_chars};

verus! {

/// The SHA-256 digest of `data`.
pub uninterp spec fn sha256_digest(data: Seq<u8>) -> Seq<u8>;

/// Calls `sha2::Sha256::digest`: the SHA-256 digest of the bytes, which is 32
/// bytes long.
#[verifier::external_body]
pub(crate) fn sha256(data: &[u8]) -> (r: Vec<u8>)
    ensures
        r@ == sha256_digest(data@),
        r@.len() == 32,
{
    <sha2::Sha256 as sha2::Digest>::digest(data).to_vec()
}

/// The hexadecimal form of `bytes`: two digits for each byte, the high half
/// first, with small letters.
pub open spec fn hex_text(bytes: Seq<u8>) -> Seq<char> {
    Seq::new(
        2 * bytes.len(),
        |i: int|
            digit_char(
                if i % 2 == 0 {
                    bytes[i / 2] as nat / 16
                } else {
                    bytes[i / 2] as nat % 16
                },
            ),
    )
}

/// Calls `hex::encode`: two hexadecimal digits for each byte, the high half
/// first, with small letters.
#[verifier::external_body]
pub(crate) fn hex_encode(bytes: &[u8]) -> (r: String)
    ensures
        r@ == hex_text(bytes@),
{
    hex::encode(bytes)
}

/// The first `len` hexadecimal digits of a digest.
pub fn hex_prefix(digest: &[u8], len: usize) -> (r: String)
    requires
        len <= 2 * digest@.len(),
    ensures
        r@ == hex_text(digest@).take(len as int),
{
    let all = hex_encode(digest);
    let cs = to_chars(all.as_str());
    let r = slice_text(&cs, 0, len);
    proof {
        assert(r@ =~= hex_text(digest@).take(len as int));
    }
    r
}

/// The first `len` hexadecimal digits of the SHA-256 digest of a text.
pub open spec fn hash_prefix(value: Seq<char>, len: int) -> Seq<char> {
    hex_text(sha256_digest(vstd::utf8::encode_utf8(value))).take(len)
}

/// The first `len` hexadecimal digits of the SHA-256 digest of `value`.
pub fn short_hash(value: &str, len: usize) -> (r: String)
    requires
        len <= 64,
    ensures
        r@ == hash_prefix(value@, len as int),
        r@.len() == len,
{
    let digest = sha256(value.as_bytes());
    hex_prefix(digest.as_slice(), len)
}

/// The number that the first two bytes of a digest stand for, the high byte first.
pub open spec fn leading_number(digest: Seq<u8>) -> nat {
    digest[0] as nat * 256 + digest[1] as nat
}

/// The number that the first two bytes of a digest stand for, the high byte first.
pub fn leading_u16(digest: &[u8]) -> (r: u16)
    requires
        digest@.len() >= 2,
    ensures
        r == leading_number(digest@),
{
    let high: u16 = digest[0] as u16;
    let low: u16 = digest[1] as u16;
    high * 256 + low
}

/// The number that the first two bytes of the SHA-256 digest of a text stand for.
pub open spec fn hash_number(value: Seq<char>) -> nat {
    leading_number(sha256_digest(vstd::utf8::encode_utf8(value)))
}

/// The number that the first two bytes of the SHA-256 digest of `value` stand for.
pub fn hash_u16(value: &str) -> (r: u16)
    ensures
        r == hash_number(value@),
{
    let digest = sha256(value.as_bytes());
    leading_u16(digest.as_slice())
}

/// Whether a text is made of the digits of a whole digest.
pub open spec fn is_digest(s: Seq<char>) -> bool {
    s.len() == 64 && forall|i: int| 0 <= i < s.len() ==> is_hex_digit(#[trigger] s[i])
}

/// Whether a character is a hexadecimal digit, with small letters.
pub open spec fn is_hex_digit(c: char) -> bool {
    '0' <= c <= '9' || 'a' <= c <= 'f'
}

/// Each byte is written as two hexadecimal digits, the greater one first, that give it
/// back.
pub proof fn bytes_are_written_as_two_digits(bytes: Seq<u8>, i: int)
    requires
        0 <= i < bytes.len(),
    ensures
        hex_text(bytes).len() == 2 * bytes.len(),
        is_hex_digit(hex_text(bytes)[2 * i]),
        is_hex_digit(hex_text(bytes)[2 * i + 1]),
        crate::netaddr::hex_number(hex_text(bytes).subrange(2 * i, 2 * i + 2)) == Some(
            bytes[i] as nat,
        ),
{
    let t = hex_text(bytes);
    let pair = t.subrange(2 * i, 2 * i + 2);
    assert((2 * i) / 2 == i && (2 * i) % 2 == 0);
    assert((2 * i + 1) / 2 == i && (2 * i + 1) % 2 == 1);
    assert(t[2 * i] == digit_char(bytes[i] as nat / 16));
    assert(t[2 * i + 1] == digit_char(bytes[i] as nat % 16));
    assert(pair.drop_last().drop_last() =~= Seq::<char>::empty());
    assert(pair.drop_last().last() == t[2 * i]);
    assert(pair.last() == t[2 * i + 1]);
    reveal_with_fuel(crate::netaddr::hex_number, 3);
    assert(crate::netaddr::hex_number(pair.drop_last()) == Some(bytes[i] as nat / 16));
}

/// A shorter digest text is the beginning of a longer one, so that names that are taken
/// from one digest go together.
pub proof fn shorter_digest_is_a_beginning(value: Seq<char>, len: int, more: int)
    requires
        0 <= len <= more <= 2 * sha256_digest(vstd::utf8::encode_utf8(value)).len(),
    ensures
        hash_prefix(value, len).len() == len,
        hash_prefix(value, len) == hash_prefix(value, more).take(len),
        forall|i: int|
            0 <= i < len ==> is_hex_digit(#[trigger] hash_prefix(value, len)[i]),
{
    let d = sha256_digest(vstd::utf8::encode_utf8(value));
    assert(hash_prefix(value, len) =~= hash_prefix(value, more).take(len));
    assert forall|i: int| 0 <= i < len implies is_hex_digit(
        #[trigger] hash_prefix(value, len)[i],
    ) by {
        assert(0 <= i / 2 < d.len());
        bytes_are_written_as_two_digits(d, i / 2);
        if i % 2 == 0 {
            assert(i == 2 * (i / 2));
        } else {
            assert(i == 2 * (i / 2) + 1);
        }
    }
}

/// The number that a text hashes to is the one that the first four digits of its digest
/// text stand for.
pub proof fn number_is_the_front_of_the_digest(value: Seq<char>)
    requires
        sha256_digest(vstd::utf8::encode_utf8(value)).len() == 32,
    ensures
        crate::netaddr::hex_number(hash_prefix(value, 4)) == Some(hash_number(value)),
        hash_number(value) < 65_536,
{
    let d = sha256_digest(vstd::utf8::encode_utf8(value));
    let t = hex_text(d);
    let s = hash_prefix(value, 4);
    assert(t[0] == digit_char(d[0] as nat / 16));
    assert(t[1] == digit_char(d[0] as nat % 16));
    assert(t[2] == digit_char(d[1] as nat / 16));
    assert(t[3] == digit_char(d[1] as nat % 16));
    let s3 = s.drop_last();
    let s2 = s3.drop_last();
    let s1 = s2.drop_last();
    assert(s1.drop_last() =~= Seq::<char>::empty());
    assert(s.last() == t[3] && s3.last() == t[2] && s2.last() == t[1] && s1.last() == t[0]);
    assert(crate::netaddr::hex_number(s1.drop_last()) == Some(0nat));
    assert(crate::netaddr::hex_number(s1) == Some(d[0] as nat / 16));
    assert(crate::netaddr::hex_number(s2) == Some(d[0] as nat));
    assert(crate::netaddr::hex_number(s3) == Some(d[0] as nat * 16 + d[1] as nat / 16));
}

} // verus!
