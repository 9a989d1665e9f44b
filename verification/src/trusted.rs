//! The calls into outside crates that the registry's logic makes.
use vstd::prelude::*;

verus! {

/// A lowercase hexadecimal digit, as `hex` and `uuid` write them.
pub open spec fn is_lower_hex(c: char) -> bool {
    ('0' <= c && c <= '9') || ('a' <= c && c <= 'f')
}

/// The text that `sha256::digest` gives for these bytes: the SHA-256 digest of
/// the bytes, written as lowercase hexadecimal.
pub uninterp spec fn sha256_hex(data: Seq<u8>) -> Seq<char>;

/// Calls `sha256::digest` on the bytes. The contract claims that the result is
/// `sha256_hex` of the bytes, and what the crate's source shows of its form:
/// `hex::encode` of the 32-byte SHA-256 output, 64 lowercase hex digits.
#[verifier::external_body]
pub(crate) fn sha256_digest(data: &Vec<u8>) -> (r: String)
    ensures
        r@ == sha256_hex(data@),
        r@.len() == 64,
        forall|i: int| 0 <= i < r@.len() ==> is_lower_hex(#[trigger] r@[i]),
{
    sha256::digest(data)
}

/// The hyphenated text of a random (version 4) UUID, such as
/// `67e55044-10b1-426f-9247-bb680e5fe0c8`.
pub open spec fn is_v4_uuid_text(s: Seq<char>) -> bool {
    &&& s.len() == 36
    &&& forall|i: int|
        0 <= i < 36 ==> if i == 8 || i == 13 || i == 18 || i == 23 {
            #[trigger] s[i] == '-'
        } else {
            is_lower_hex(s[i])
        }
    &&& s[14] == '4'
    &&& (s[19] == '8' || s[19] == '9' || s[19] == 'a' || s[19] == 'b')
}

/// Calls `uuid::Uuid::new_v4` and writes the new id with `to_string`. The id
/// is random, so the contract claims only its form, which the crate's source
/// shows: the hyphenated lowercase text with the version digit `4` and the
/// RFC 4122 variant. Two calls may give the same text as far as the contract
/// says.
#[verifier::external_body]
pub(crate) fn new_v4_uuid_text() -> (r: String)
    ensures
        is_v4_uuid_text(r@),
{
    uuid::Uuid::new_v4().to_string()
}

} // verus!
