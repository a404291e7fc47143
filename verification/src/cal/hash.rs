//! The hash by which a name is turned into the name of a file.

use vstd::prelude::*;

verus! {

/// The largest number of bytes that are hashed at once: the hash counts
/// the bits of its input in 64 bits, and this library hashes names only.
pub const MAX_INPUT_LENGTH: usize = 65535;

/// The number of bytes of a digest in its hexadecimal form.
pub const HEX_DIGEST_LENGTH: usize = 40;

/// The SHA-1 digest of `bytes` in its hexadecimal form, as
/// `sha1_smol::Sha1` computes and `sha1_smol::Digest` displays it.
pub uninterp spec fn spec_sha1_hex(bytes: Seq<u8>) -> Seq<u8>;

/// True if `byte` is a decimal digit or one of the letters `a` to `f`.
pub open spec fn is_hex_digit(byte: u8) -> bool {
    (48 <= byte <= 57) || (97 <= byte <= 102)
}

/// True if `digest` has the form of a digest: forty hexadecimal digits.
pub open spec fn is_hex_digest(digest: Seq<u8>) -> bool {
    &&& digest.len() == HEX_DIGEST_LENGTH
    &&& forall|i: int| 0 <= i < digest.len() ==> is_hex_digit(#[trigger] digest[i])
}

/// Feeds `bytes` to `sha1_smol::Sha1::from`, takes the digest with
/// `sha1_smol::Sha1::digest` and returns what its `Display` writes: the
/// five words of the digest, each as eight hexadecimal digits in lower
/// case. The digest depends on the bytes alone; nothing else is claimed of
/// its value. Inputs whose number of bits does not fit 64 bits, on which
/// the count of the hash would overflow, are left out.
#[verifier::external_body]
pub(crate) fn sha1_hex(bytes: &Vec<u8>) -> (digest: Vec<u8>)
    requires
        bytes@.len() <= MAX_INPUT_LENGTH,
    ensures
        digest@ == spec_sha1_hex(bytes@),
        is_hex_digest(digest@),
{
    sha1_smol::Sha1::from(bytes.as_slice()).digest().to_string().into_bytes()
}

} // verus!
