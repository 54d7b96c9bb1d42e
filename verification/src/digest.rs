//! The one cryptographic hash that manifests use.

use sha2::Digest;
use vstd::prelude::*;

verus! {

/// The SHA-256 digest of `bytes`, written as lowercase hexadecimal.
pub uninterp spec fn sha256_hex_digest(bytes: Seq<u8>) -> Seq<char>;

/// Whether `c` is one of the digits `0` to `9` and `a` to `f`.
pub open spec fn lower_hex_digit(c: char) -> bool {
    ('0' <= c && c <= '9') || ('a' <= c && c <= 'f')
}

/// Whether `text` has the shape of a digest: 64 lowercase hexadecimal
/// digits.
pub open spec fn digest_shaped(text: Seq<char>) -> bool {
    &&& text.len() == 64
    &&& forall|i: int| 0 <= i < text.len() ==> lower_hex_digit(#[trigger] text[i])
}

/// Calls `sha2::Sha256::digest` and formats the 32 bytes it returns with
/// `{:x}`. Trusted: the text that comes back is the digest named by
/// [`sha256_hex_digest`], a function of the bytes alone, and it is two
/// lowercase hexadecimal digits for each of the 32 bytes.
#[verifier::external_body]
fn sha256_hex(bytes: &[u8]) -> (hex: String)
    ensures
        hex@ == sha256_hex_digest(bytes@),
        digest_shaped(hex@),
{
    format!("{:x}", sha2::Sha256::digest(bytes))
}

/// Hashes the contents of one file.
pub fn file_digest(contents: &Vec<u8>) -> (hex: String)
    ensures
        hex@ == sha256_hex_digest(contents@),
        digest_shaped(hex@),
{
    sha256_hex(contents.as_slice())
}

} // verus!
