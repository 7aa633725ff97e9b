//! The calls into outside crates for digests, DER and randomness.
use vstd::prelude::*;

use sha2::Digest;

verus! {

/// What SHA-256 gives for `data`.
pub uninterp spec fn sha256_of(data: Seq<u8>) -> Seq<u8>;

/// The DER encoding of a PKCS#1 `DigestInfo` with the given hash-algorithm
/// object identifier and digest.
pub uninterp spec fn der_digest_info(oid: Seq<u64>, digest: Seq<u8>) -> Seq<u8>;

/// Relies on `sha2::Sha256::digest`: the SHA-256 digest of `data`, whose
/// output type holds 32 bytes.
#[verifier::external_body]
pub fn sha256(data: &[u8]) -> (r: Vec<u8>)
    ensures
        r@ == sha256_of(data@),
        r@.len() == 32,
{
    sha2::Sha256::digest(data).to_vec()
}

/// Whether yasna can write `oid`: at least two arcs, a first arc below 3,
/// a second arc below 40 under a first arc below 2, and room to combine the
/// first two arcs.
pub open spec fn writable_oid(oid: Seq<u64>) -> bool {
    &&& oid.len() >= 2
    &&& oid[0] < 3
    &&& oid[0] >= 2 || oid[1] < 40
    &&& oid[1] < 18446744073709551535
}

/// The DER bytes that come before a 32-byte SHA-256 digest in a
/// `DigestInfo`.
pub open spec fn sha256_digest_info_prefix() -> Seq<u8> {
    seq![
        0x30, 0x31, 0x30, 0x0d, 0x06, 0x09, 0x60, 0x86, 0x48, 0x01, 0x65, 0x03, 0x04, 0x02, 0x01,
        0x05, 0x00, 0x04, 0x20,
    ]
}

/// Relies on `yasna::encode_der` of `((OID, ()), bytes)`: writes
/// `SEQUENCE { SEQUENCE { OID, NULL }, OCTET STRING }` in DER. Its OID
/// writer panics on an OID that `writable_oid` excludes. For the SHA-256
/// OID and a 32-byte digest every length fits in one byte, so the encoding
/// is the fixed prefix and the digest.
#[verifier::external_body]
pub fn digest_info(oid: &[u64], digest: &[u8]) -> (r: Vec<u8>)
    requires
        writable_oid(oid@),
    ensures
        r@ == der_digest_info(oid@, digest@),
        oid@ == seq![2u64, 16, 840, 1, 101, 3, 4, 2, 1] && digest@.len() == 32 ==> r@
            == sha256_digest_info_prefix() + digest@,
{
    let algorithm = (yasna::models::ObjectIdentifier::from_slice(oid), ());
    yasna::encode_der(&(algorithm, digest.to_vec()))
}

/// Relies on `rand::random`: a value drawn from the thread-local generator.
#[verifier::external_body]
pub fn random_u64() -> (r: u64) {
    rand::random::<u64>()
}

} // verus!
