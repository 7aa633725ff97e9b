//! OpenPGP signatures whose RSA operation the device performs: the packet
//! and the digest info to sign are made first, and the packet is finished
//! with the device's signature.
use vstd::prelude::*;

use crate::digest::{der_digest_info, digest_info, sha256_digest_info_prefix};
use crate::log::opt_bytes;

verus! {

#[verifier::external_type_specification]
#[verifier::external_body]
pub struct ExSignaturePacket(pretty_good::SignaturePacket);

/// What a signature signs.
#[derive(Clone, Copy, Debug, PartialEq, Eq, Structural)]
pub enum SignatureKind {
    BinaryDocument,
    TextDocument,
}

/// The public-key algorithm of a signature.
#[derive(Clone, Copy, Debug, PartialEq, Eq, Structural)]
pub enum SignatureKeyAlgorithm {
    Rsa,
}

/// The hash algorithm of a signature.
#[derive(Clone, Copy, Debug, PartialEq, Eq, Structural)]
pub enum HashAlgorithm {
    Sha256,
    Sha384,
    Sha512,
}

/// The components of the object identifier of a hash algorithm.
pub open spec fn hash_oid_of(h: HashAlgorithm) -> Seq<u64> {
    match h {
        HashAlgorithm::Sha256 => seq![2u64, 16, 840, 1, 101, 3, 4, 2, 1],
        HashAlgorithm::Sha384 => seq![2u64, 16, 840, 1, 101, 3, 4, 2, 2],
        HashAlgorithm::Sha512 => seq![2u64, 16, 840, 1, 101, 3, 4, 2, 3],
    }
}

/// Relies on `pretty_good::HashAlgorithm::asn1_oid`, which gives these
/// object identifiers for SHA-256, SHA-384 and SHA-512.
#[verifier::external_body]
pub fn hash_algorithm_oid(h: HashAlgorithm) -> (r: Option<Vec<u64>>)
    ensures
        r is Some,
        r is Some ==> r->Some_0@ == hash_oid_of(h),
{
    let alg = match h {
        HashAlgorithm::Sha256 => pretty_good::HashAlgorithm::Sha256,
        HashAlgorithm::Sha384 => pretty_good::HashAlgorithm::Sha384,
        HashAlgorithm::Sha512 => pretty_good::HashAlgorithm::Sha512,
    };
    match alg.asn1_oid() {
        Ok(oid) => Some(oid.components().clone()),
        Err(_) => None,
    }
}

/// The digest that a signature packet of this kind, key algorithm and hash
/// algorithm, created at second `created`, signs for `payload`: the hash of
/// the payload followed by the packet's hashed header and trailer.
pub uninterp spec fn pgp_signable_digest(
    kind: SignatureKind,
    key_algorithm: SignatureKeyAlgorithm,
    hash: HashAlgorithm,
    created: u64,
    payload: Seq<u8>,
) -> Seq<u8>;

/// The bytes of a signature packet of this kind, key algorithm and hash
/// algorithm, created at second `created`, after its signable digest was
/// `digest`, its RSA signature set to `signature` and its signer named.
pub uninterp spec fn pgp_signature_bytes(
    kind: SignatureKind,
    key_algorithm: SignatureKeyAlgorithm,
    hash: HashAlgorithm,
    created: u64,
    digest: Option<Seq<u8>>,
    signature: Option<Seq<u8>>,
    signer: Option<u64>,
) -> Seq<u8>;

/// A signature packet made by `new_signature_packet`, with the plain values
/// that its bytes depend on: what it was made with, its creation second,
/// the last digest computed over it, its RSA signature and its signer. Only
/// the wrappers below change it, each keeping those values in step, and
/// none of them removes its creation time; a packet with a creation time
/// and a known hash algorithm always yields its signable digest and its
/// bytes. Only this module makes one.
pub struct StampedPacket {
    packet: pretty_good::SignaturePacket,
    kind: SignatureKind,
    key_algorithm: SignatureKeyAlgorithm,
    hash: HashAlgorithm,
    created: u64,
    digest: Option<Vec<u8>>,
    signature: Option<Vec<u8>>,
    signer: Option<u64>,
}

impl StampedPacket {
    pub closed spec fn kind(&self) -> SignatureKind {
        self.kind
    }

    pub closed spec fn key_algorithm(&self) -> SignatureKeyAlgorithm {
        self.key_algorithm
    }

    pub closed spec fn hash(&self) -> HashAlgorithm {
        self.hash
    }

    /// The second since the epoch at which the packet was made.
    pub closed spec fn created(&self) -> u64 {
        self.created
    }

    /// The last signable digest computed over the packet.
    pub closed spec fn digest(&self) -> Option<Seq<u8>> {
        opt_bytes(self.digest)
    }

    /// The RSA signature set in the packet.
    pub closed spec fn signature(&self) -> Option<Seq<u8>> {
        opt_bytes(self.signature)
    }

    /// The key id named as the signer.
    pub closed spec fn signer(&self) -> Option<u64> {
        self.signer
    }

    /// Whether `other` holds the same packet values apart from the digest,
    /// the signature and the signer.
    pub closed spec fn same_header(&self, other: StampedPacket) -> bool {
        &&& self.kind == other.kind
        &&& self.key_algorithm == other.key_algorithm
        &&& self.hash == other.hash
        &&& self.created == other.created
    }
}

/// Relies on `pretty_good::SignaturePacket::new`, which stamps the packet
/// with the current time and fails only if the clock is before 1970, and on
/// `SignaturePacket::timestamp`, which gives that time back.
#[verifier::external_body]
fn new_signature_packet(
    kind: SignatureKind,
    key_algorithm: SignatureKeyAlgorithm,
    hash: HashAlgorithm,
) -> (r: Option<StampedPacket>)
    ensures
        r matches Some(p) ==> p.kind() == kind && p.key_algorithm() == key_algorithm && p.hash()
            == hash && p.digest() is None && p.signature() is None && p.signer() is None,
{
    let outside_kind = match kind {
        SignatureKind::BinaryDocument => pretty_good::SignatureType::BinaryDocument,
        SignatureKind::TextDocument => pretty_good::SignatureType::TextDocument,
    };
    let outside_key = match key_algorithm {
        SignatureKeyAlgorithm::Rsa => pretty_good::PublicKeyAlgorithm::Rsa,
    };
    let outside_hash = match hash {
        HashAlgorithm::Sha256 => pretty_good::HashAlgorithm::Sha256,
        HashAlgorithm::Sha384 => pretty_good::HashAlgorithm::Sha384,
        HashAlgorithm::Sha512 => pretty_good::HashAlgorithm::Sha512,
    };
    let packet = pretty_good::SignaturePacket::new(outside_kind, outside_key, outside_hash).ok()?;
    let created = packet.timestamp()?.as_secs();
    Some(StampedPacket { packet, kind, key_algorithm, hash, created, digest: None, signature: None, signer: None })
}

/// Relies on `pretty_good::SignaturePacket::signable_payload`: the digest
/// of the payload followed by the packet's hashed header and trailer, whose
/// first two bytes the packet keeps for its bytes. It fails only without a
/// creation time or with an unknown hash algorithm.
#[verifier::external_body]
fn signable_digest(packet: &mut StampedPacket, payload: &[u8]) -> (r: Vec<u8>)
    ensures
        r@ == pgp_signable_digest(
            old(packet).kind(),
            old(packet).key_algorithm(),
            old(packet).hash(),
            old(packet).created(),
            payload@,
        ),
        old(packet).hash() == HashAlgorithm::Sha256 ==> r@.len() == 32,
        final(packet).same_header(*old(packet)),
        final(packet).digest() == Some(r@),
        final(packet).signature() == old(packet).signature(),
        final(packet).signer() == old(packet).signer(),
{
    let digest = packet.packet.signable_payload(payload).unwrap_or_default();
    packet.digest = Some(digest.clone());
    digest
}

/// Relies on `pretty_good::SignaturePacket::set_contents`, given an RSA
/// signature read by `num::BigUint::from_bytes_be`; for an RSA signature it
/// cannot fail, and it replaces the packet's signature.
#[verifier::external_body]
fn set_rsa_signature(packet: &mut StampedPacket, signature: &[u8])
    ensures
        final(packet).same_header(*old(packet)),
        final(packet).digest() == old(packet).digest(),
        final(packet).signature() == Some(signature@),
        final(packet).signer() == old(packet).signer(),
{
    let value = num::BigUint::from_bytes_be(signature);
    let _ = packet.packet.set_contents(pretty_good::Signature::Rsa(value));
    packet.signature = Some(signature.to_vec());
}

/// Relies on `pretty_good::SignaturePacket::set_signer`: names the key id
/// of the signer, replacing any named before.
#[verifier::external_body]
fn set_signer(packet: &mut StampedPacket, signer: u64)
    ensures
        final(packet).same_header(*old(packet)),
        final(packet).digest() == old(packet).digest(),
        final(packet).signature() == old(packet).signature(),
        final(packet).signer() == Some(signer),
{
    packet.packet.set_signer(signer);
    packet.signer = Some(signer);
}

/// Relies on `pretty_good::Packet::to_bytes` for a signature packet, which
/// fails only without a creation time, and writes a header of at least two
/// bytes before the body.
#[verifier::external_body]
fn signature_packet_bytes(packet: StampedPacket) -> (r: Vec<u8>)
    ensures
        r@ == pgp_signature_bytes(
            packet.kind(),
            packet.key_algorithm(),
            packet.hash(),
            packet.created(),
            packet.digest(),
            packet.signature(),
            packet.signer(),
        ),
        r@.len() >= 2,
{
    pretty_good::Packet::Signature(packet.packet).to_bytes().unwrap_or_default()
}

/// Why a PGP signature could not be started.
#[derive(Clone, Copy, Debug, PartialEq, Eq, Structural)]
pub enum PgpSignError {
    /// The signature packet could not be made: the clock is before 1970.
    Packet,
}

/// A PGP signature packet of a binary document by an RSA key over SHA-256,
/// made at second `created`, awaiting the device's signature of
/// `digest_info`.
pub struct PendingPgpSignature {
    pub packet: StampedPacket,
    /// The second since the epoch at which the packet was made.
    pub created: u64,
    /// The packet's signable digest of the payload.
    pub digest: Vec<u8>,
    /// What the device is to sign, without hashing it again: the DER
    /// `DigestInfo` that names SHA-256 and holds `digest`.
    pub digest_info: Vec<u8>,
}

impl PendingPgpSignature {
    /// Whether the packet is a binary-document signature by an RSA key over
    /// SHA-256, made at `created`, whose digest is `digest`, with no
    /// signature or signer set yet.
    pub open spec fn wf(&self) -> bool {
        &&& self.packet.kind() == SignatureKind::BinaryDocument
        &&& self.packet.key_algorithm() == SignatureKeyAlgorithm::Rsa
        &&& self.packet.hash() == HashAlgorithm::Sha256
        &&& self.packet.created() == self.created
        &&& self.packet.digest() == Some(self.digest@)
        &&& self.packet.signature() is None
        &&& self.packet.signer() is None
    }
}

/// Starts a PGP signature of a binary document by an RSA key over SHA-256:
/// makes the packet and the digest info that the device is to sign.
pub fn begin_pgp_signature(payload: &[u8]) -> (r: Result<PendingPgpSignature, PgpSignError>)
    ensures
        r matches Ok(p) ==> {
            &&& p.wf()
            &&& p.digest@ == pgp_signable_digest(
                SignatureKind::BinaryDocument,
                SignatureKeyAlgorithm::Rsa,
                HashAlgorithm::Sha256,
                p.created,
                payload@,
            )
            &&& p.digest_info@ == sha256_digest_info_prefix() + p.digest@
            &&& p.digest_info@ == der_digest_info(hash_oid_of(HashAlgorithm::Sha256), p.digest@)
        },
        r is Err ==> r == Err::<PendingPgpSignature, PgpSignError>(PgpSignError::Packet),
{
    let oid = match hash_algorithm_oid(HashAlgorithm::Sha256) {
        Some(oid) => oid,
        None => return Err(PgpSignError::Packet),
    };
    let mut packet = match new_signature_packet(
        SignatureKind::BinaryDocument,
        SignatureKeyAlgorithm::Rsa,
        HashAlgorithm::Sha256,
    ) {
        Some(p) => p,
        None => return Err(PgpSignError::Packet),
    };
    let created = packet.created;
    let digest = signable_digest(&mut packet, payload);
    let info = digest_info(oid.as_slice(), digest.as_slice());
    Ok(PendingPgpSignature { packet, created, digest, digest_info: info })
}

/// Finishes a PGP signature with the device's RSA signature of its digest
/// info, names `signer` as the signing key, and gives the packet's bytes.
pub fn finish_pgp_signature(pending: PendingPgpSignature, signature: &[u8], signer: u64) -> (r:
    Vec<u8>)
    requires
        pending.wf(),
    ensures
        r@ == pgp_signature_bytes(
            SignatureKind::BinaryDocument,
            SignatureKeyAlgorithm::Rsa,
            HashAlgorithm::Sha256,
            pending.created,
            Some(pending.digest@),
            Some(signature@),
            Some(signer),
        ),
        r@.len() >= 2,
{
    let mut packet = pending.packet;
    set_rsa_signature(&mut packet, signature);
    set_signer(&mut packet, signer);
    signature_packet_bytes(packet)
}

} // verus!
