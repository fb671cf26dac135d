//! Digests and encodings of bytes.

use crate::text;
use vstd::prelude::*;

verus! {

/// The hexadecimal SHA-256 digest that `sha2` computes of bytes.
pub uninterp spec fn sha256_text(input: Seq<u8>) -> Seq<char>;

/// Whether a text is the hexadecimal form of a SHA-256 digest.
pub open spec fn is_digest(s: Seq<char>) -> bool {
    &&& s.len() == 64
    &&& forall|i: int| 0 <= i < s.len() ==> ('0' <= #[trigger] s[i] <= '9' || 'a' <= s[i] <= 'f')
}

/// `sha2::Sha256::digest`, each byte of it as two hexadecimal digits: a function of the bytes,
/// of 64 digits, none of them in upper case.
#[verifier::external_body]
pub(crate) fn sha256_hex(input: &[u8]) -> (r: String)
    ensures
        r@ == sha256_text(input@),
        is_digest(r@),
{
    let digest = <sha2::Sha256 as sha2::Digest>::digest(input);
    digest.iter().map(|byte| format!("{byte:02x}")).collect()
}

/// The padded text that the standard engine of `base64` makes of bytes.
pub uninterp spec fn base64_text(input: Seq<u8>) -> Seq<char>;

/// The size of the padded text of so many bytes: four characters for every three, the last
/// ones of which may be missing.
pub open spec fn base64_size(n: nat) -> nat {
    (n + 2) / 3 * 4
}

/// `encode` of `base64::engine::general_purpose::STANDARD`: a function of the bytes, four
/// ASCII characters for each three bytes that were begun. It panics where that size
/// overflows.
#[verifier::external_body]
pub(crate) fn base64_encode(input: &[u8]) -> (r: String)
    requires
        base64_size(input@.len()) <= usize::MAX,
    ensures
        r@ == base64_text(input@),
        text::utf8_len(r@) == base64_size(input@.len()),
{
    base64::Engine::encode(&base64::engine::general_purpose::STANDARD, input)
}

} // verus!
