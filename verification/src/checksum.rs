//! Checksums of kernels: the MD5 digest of a text, written as lowercase hex.

use vstd::prelude::*;

use crate::text::push_char;

verus! {

/// The lowercase hexadecimal digits.
pub const HEX_LOWER: [char; 16] = [
    '0', '1', '2', '3', '4', '5', '6', '7', '8', '9', 'a', 'b', 'c', 'd', 'e', 'f',
];

/// Each byte as two lowercase hexadecimal digits, high half first: the
/// `{:x}` (and `{:?}`) form of an MD5 digest.
pub open spec fn hex_lower(bytes: Seq<u8>) -> Seq<char>
    decreases bytes.len(),
{
    if bytes.len() == 0 {
        Seq::<char>::empty()
    } else {
        seq![HEX_LOWER@[(bytes[0] / 16) as int], HEX_LOWER@[(bytes[0] % 16) as int]] + hex_lower(
            bytes.drop_first(),
        )
    }
}

/// A lowercase hexadecimal digit.
pub open spec fn is_hex_digit(c: char) -> bool {
    ('0' <= c <= '9') || ('a' <= c <= 'f')
}

/// The hex form is twice as long as the bytes and made of hex digits only.
pub proof fn lemma_hex_lower(bytes: Seq<u8>)
    ensures
        hex_lower(bytes).len() == 2 * bytes.len(),
        forall|i: int| 0 <= i < hex_lower(bytes).len() ==> is_hex_digit(#[trigger] hex_lower(bytes)[i]),
    decreases bytes.len(),
{
    if bytes.len() > 0 {
        lemma_hex_lower(bytes.drop_first());
        let head = seq![HEX_LOWER@[(bytes[0] / 16) as int], HEX_LOWER@[(bytes[0] % 16) as int]];
        assert(HEX_LOWER@ =~= seq![
            '0', '1', '2', '3', '4', '5', '6', '7', '8', '9', 'a', 'b', 'c', 'd', 'e', 'f',
        ]);
        assert forall|i: int| 0 <= i < hex_lower(bytes).len() implies is_hex_digit(
            #[trigger] hex_lower(bytes)[i],
        ) by {
            if i < 2 {
                assert(hex_lower(bytes)[i] == head[i]);
            } else {
                assert(hex_lower(bytes)[i] == hex_lower(bytes.drop_first())[i - 2]);
            }
        }
    }
}

/// `bytes` in lowercase hexadecimal; the `{:x}` form of `md5::Digest`.
pub fn hex_string(bytes: &[u8]) -> (r: String)
    ensures
        r@ == hex_lower(bytes@),
{
    let mut r = String::new();
    let mut i: usize = 0;
    assert(bytes@.skip(0) =~= bytes@);
    assert(r@ + hex_lower(bytes@) =~= hex_lower(bytes@));
    while i < bytes.len()
        invariant
            i <= bytes@.len(),
            hex_lower(bytes@) == r@ + hex_lower(bytes@.skip(i as int)),
        decreases bytes@.len() - i,
    {
        let b = bytes[i];
        assert(bytes@.skip(i as int).drop_first() =~= bytes@.skip(i + 1));
        push_char(&mut r, HEX_LOWER[(b / 16) as usize]);
        push_char(&mut r, HEX_LOWER[(b % 16) as usize]);
        i = i + 1;
    }
    assert(bytes@.skip(bytes@.len() as int) =~= Seq::<u8>::empty());
    assert(r@ + Seq::<char>::empty() =~= r@);
    r
}

/// The MD5 digest of `data`: what `md5::compute` returns.
pub uninterp spec fn md5_digest(data: Seq<u8>) -> Seq<u8>;

/// `md5::compute(data)`, its sixteen bytes taken out of the `Digest`; the
/// result is the MD5 digest of `data` and nothing more is claimed of it.
#[verifier::external_body]
fn md5_compute(data: &[u8]) -> (d: [u8; 16])
    ensures
        d@ == md5_digest(data@),
{
    md5::compute(data).0
}

/// The checksum of some bytes: their MD5 digest in lowercase hexadecimal,
/// thirty-two digits long.
pub fn checksum_of_bytes(data: &[u8]) -> (r: String)
    ensures
        r@ == hex_lower(md5_digest(data@)),
        r@.len() == 32,
        forall|i: int| 0 <= i < r@.len() ==> is_hex_digit(#[trigger] r@[i]),
{
    let digest = md5_compute(data);
    proof {
        lemma_hex_lower(digest@);
    }
    hex_string(digest.as_slice())
}

/// The digest of some bytes, as the versions cache records it.
pub fn digest_of_bytes(data: &[u8]) -> (r: [u8; 16])
    ensures
        r@ == md5_digest(data@),
{
    md5_compute(data)
}

/// The checksum of a text: the MD5 digest of its UTF-8 bytes, in lowercase
/// hexadecimal, thirty-two digits long.
pub fn checksum_of(text: &str) -> (r: String)
    ensures
        r@ == hex_lower(md5_digest(vstd::utf8::encode_utf8(text@))),
        r@.len() == 32,
        forall|i: int| 0 <= i < r@.len() ==> is_hex_digit(#[trigger] r@[i]),
{
    checksum_of_bytes(text.as_bytes())
}

} // verus!
