use vstd::prelude::*;

verus! {

/// The lowercase hex SHA-256 digest of a byte sequence.
pub uninterp spec fn sha256_hex(bytes: Seq<u8>) -> Seq<char>;

/// A lowercase hexadecimal digit.
pub open spec fn is_lower_hex_digit(c: char) -> bool {
    ('0' <= c && c <= '9') || ('a' <= c && c <= 'f')
}

/// Text in the shape of a SHA-256 digest: 64 lowercase hex digits.
pub open spec fn is_digest_text(s: Seq<char>) -> bool {
    &&& s.len() == 64
    &&& forall|i: int| 0 <= i < s.len() ==> #[trigger] is_lower_hex_digit(s[i])
}

/// Relies on sha256::digest for `&Vec<u8>`: it hex-encodes (lowercase, through
/// hex::encode) the 32 bytes of the SHA-256 digest of the bytes, and depends on
/// the bytes alone.
#[verifier::external_body]
fn sha256_digest(bytes: &Vec<u8>) -> (r: String)
    ensures
        r@ == sha256_hex(bytes@),
        is_digest_text(r@),
{
    sha256::digest(bytes)
}

/// The content digest of a file's bytes.
pub fn hash_bytes(bytes: &Vec<u8>) -> (r: String)
    ensures
        r@ == sha256_hex(bytes@),
        is_digest_text(r@),
{
    sha256_digest(bytes)
}

/// Two files with the same bytes get the same digest, whatever their paths.
pub proof fn lemma_equal_bytes_equal_hash(a: Seq<u8>, b: Seq<u8>)
    requires
        a == b,
    ensures
        sha256_hex(a) == sha256_hex(b),
        is_digest_text(sha256_hex(a)) ==> is_digest_text(sha256_hex(b)),
{
}

} // verus!
