use vstd::prelude::*;
use sha2::Digest;

verus! {

/// Why the executable failed its integrity check.
#[derive(Debug, Clone, Copy, PartialEq, Eq, Structural)]
pub enum ChecksumError {
    /// The executable could not be read.
    IOError,
    /// The executable's digest differs from the policy's.
    Mismatch,
}

/// A digit of lowercase hexadecimal.
pub open spec fn is_lower_hex_digit(c: char) -> bool {
    ('0' <= c && c <= '9') || ('a' <= c && c <= 'f')
}

pub uninterp spec fn sha512_hex_of(data: Seq<u8>) -> Seq<char>;

/// Relies on `sha2::Sha512::digest` with lowercase hex formatting: the
/// SHA-512 digest of `data` as 128 lowercase hex digits.
#[verifier::external_body]
fn sha512_hex(data: &[u8]) -> (r: String)
    ensures
        r@ == sha512_hex_of(data@),
        r@.len() == 128,
        forall|i: int| 0 <= i < r@.len() ==> is_lower_hex_digit(#[trigger] r@[i]),
{
    format!("{:x}", sha2::Sha512::digest(data))
}

/// Whether a computed digest equals the expected one, character for
/// character and case-sensitive.
pub fn checksum_matches(actual: &str, expected: &str) -> (r: bool)
    ensures
        r == (actual@ == expected@),
{
    actual.to_string() == expected.to_string()
}

/// Checks the contents of an executable against the expected digest.
pub fn verify_digest(contents: &[u8], expected: &str) -> (r: Result<(), ChecksumError>)
    ensures
        r is Ok <==> sha512_hex_of(contents@) == expected@,
        r is Err ==> r == Err::<(), ChecksumError>(ChecksumError::Mismatch),
        r is Ok ==> expected@.len() == 128,
{
    let actual = sha512_hex(contents);
    if checksum_matches(actual.as_str(), expected) {
        Ok(())
    } else {
        Err(ChecksumError::Mismatch)
    }
}

} // verus!
