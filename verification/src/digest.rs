//! Content digests and their hexadecimal text.

use vstd::prelude::*;
use sha2::Digest;

verus! {

/// The SHA-256 digest of the bytes.
pub uninterp spec fn sha256(bytes: Seq<u8>) -> Seq<u8>;

/// The small hexadecimal digit with the given value.
pub open spec fn hex_digit(d: int) -> char {
    if d < 10 {
        (48 + d) as char
    } else {
        (87 + d) as char
    }
}

/// The bytes written with two small hexadecimal digits each.
pub open spec fn hex_text(bytes: Seq<u8>) -> Seq<char> {
    Seq::new(
        2 * bytes.len(),
        |i: int|
            if i % 2 == 0 {
                hex_digit(bytes[i / 2] as int / 16)
            } else {
                hex_digit(bytes[i / 2] as int % 16)
            },
    )
}

/// `sha2::Sha256::digest`: the 32 bytes of the SHA-256 digest of the input.
#[verifier::external_body]
pub(crate) fn sha256_bytes(bytes: &[u8]) -> (r: Vec<u8>)
    ensures
        r@ == sha256(bytes@),
        r@.len() == 32,
{
    sha2::Sha256::digest(bytes).to_vec()
}

/// `hex::encode`: two small hexadecimal digits for each byte, in order.
#[verifier::external_body]
pub(crate) fn hex_encode(bytes: &[u8]) -> (r: String)
    ensures
        r@ == hex_text(bytes@),
{
    hex::encode(bytes)
}

/// The SHA-256 digest of the bytes in hexadecimal.
pub open spec fn sha256_hex(bytes: Seq<u8>) -> Seq<char> {
    hex_text(sha256(bytes))
}

/// Writes the SHA-256 digest of the bytes in hexadecimal.
pub fn sha256_text(bytes: &[u8]) -> (r: String)
    ensures
        r@ == sha256_hex(bytes@),
        r@.len() == 64,
{
    let digest = sha256_bytes(bytes);
    hex_encode(digest.as_slice())
}

/// Bytes are written as two digits each, the greater part first, in `0` to `9` and `a` to
/// `f`; different bytes are written differently.
pub proof fn law_bytes_are_written_as_two_digits(bytes: Seq<u8>, other: Seq<u8>, i: int)
    requires
        0 <= i < bytes.len(),
    ensures
        hex_text(bytes).len() == 2 * bytes.len(),
        digit_of(hex_text(bytes)[2 * i]) * 16 + digit_of(hex_text(bytes)[2 * i + 1]) == bytes[i],
        '0' <= hex_text(bytes)[2 * i] <= '9' || 'a' <= hex_text(bytes)[2 * i] <= 'f',
        '0' <= hex_text(bytes)[2 * i + 1] <= '9' || 'a' <= hex_text(bytes)[2 * i + 1] <= 'f',
        hex_text(bytes) == hex_text(other) ==> bytes == other,
{
    lemma_digits(bytes, i);
    if hex_text(bytes) == hex_text(other) {
        assert(hex_text(other).len() == 2 * other.len());
        assert(bytes.len() == other.len());
        assert forall|k: int| 0 <= k < bytes.len() implies bytes[k] == other[k] by {
            lemma_digits(bytes, k);
            lemma_digits(other, k);
        }
        assert(bytes =~= other);
    }
}

/// The number that a hexadecimal digit stands for.
pub open spec fn digit_of(c: char) -> int {
    if '0' <= c <= '9' {
        c as int - '0' as int
    } else {
        c as int - 'a' as int + 10
    }
}

proof fn lemma_digits(bytes: Seq<u8>, i: int)
    requires
        0 <= i < bytes.len(),
    ensures
        ({
            let high = hex_text(bytes)[2 * i];
            let low = hex_text(bytes)[2 * i + 1];
            &&& digit_of(high) * 16 + digit_of(low) == bytes[i]
            &&& '0' <= high <= '9' || 'a' <= high <= 'f'
            &&& '0' <= low <= '9' || 'a' <= low <= 'f'
        }),
{
    let b = bytes[i] as int;
    assert((2 * i) / 2 == i && (2 * i) % 2 == 0);
    assert((2 * i + 1) / 2 == i && (2 * i + 1) % 2 == 1);
    assert(0 <= b / 16 < 16 && 0 <= b % 16 < 16 && (b / 16) * 16 + b % 16 == b);
    assert(hex_text(bytes)[2 * i] == hex_digit(b / 16));
    assert(hex_text(bytes)[2 * i + 1] == hex_digit(b % 16));
}

} // verus!
