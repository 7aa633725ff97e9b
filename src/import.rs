//! Reading RSA private keys to be put on the device.
use vstd::prelude::*;

use crate::service::{algorithm_for_bits, rsa_algorithm, KeyImportError, RsaAlgorithm};
use crate::service::views_of;
use crate::store::{copy_bytes, Configuration, StoreError};

verus! {

/// The tag and the decoded contents of the first PEM block of `input`.
pub uninterp spec fn pem_of(input: Seq<u8>) -> Option<(Seq<char>, Seq<u8>)>;

/// The integers of a DER `SEQUENCE` of non-negative `INTEGER`s, each
/// big-endian.
pub uninterp spec fn der_integers_of(der: Seq<u8>) -> Option<Seq<Seq<u8>>>;

/// The modulus and the two primes of a DER-encoded PKCS #1
/// `RSAPrivateKey`: a sequence of nine integers, the version (one byte),
/// the modulus, the public and private exponents, the two primes, and three
/// values derived from them.
pub open spec fn rsa_private_key_of(der: Seq<u8>) -> Option<(Seq<u8>, Seq<u8>, Seq<u8>)> {
    match der_integers_of(der) {
        Some(ints) => if ints.len() == 9 && ints[0].len() == 1 {
            Some((ints[1], ints[4], ints[5]))
        } else {
            None
        },
        None => None,
    }
}

/// Relies on `pem::parse`: the tag and the decoded contents of the first
/// PEM block, or nothing if the framing or the base64 is malformed.
#[verifier::external_body]
fn parse_pem(input: &[u8]) -> (r: Option<(String, Vec<u8>)>)
    ensures
        match r {
            Some(p) => pem_of(input@) == Some((p.0@, p.1@)),
            None => pem_of(input@) is None,
        },
{
    pem::parse(input).ok().map(|p| (p.tag, p.contents))
}

/// Relies on `yasna::decode_der` of a `Vec<BigUint>`, and on
/// `BigUint::to_bytes_be`, which gives at least one byte and no leading zero
/// byte.
#[verifier::external_body]
fn parse_der_integers(der: &[u8]) -> (r: Option<Vec<Vec<u8>>>)
    ensures
        match r {
            Some(v) => der_integers_of(der@) == Some(views_of(v@)),
            None => der_integers_of(der@) is None,
        },
        r is Some ==> forall|i: int|
            0 <= i < r->Some_0@.len() ==> (#[trigger] r->Some_0@[i])@.len() > 0 && (
            r->Some_0@[i]@.len() > 1 ==> r->Some_0@[i]@[0] != 0),
{
    let ints = yasna::decode_der::<Vec<num_bigint::BigUint>>(der).ok()?;
    Some(ints.iter().map(|n| n.to_bytes_be()).collect())
}

/// A modulus of this many bytes or more is far above any key size and is
/// not measured.
pub const MAX_KEY_BYTES: usize = 0x1000_0000;

/// The number of significant bits of a byte.
pub open spec fn byte_bits(b: u8) -> nat
    decreases b,
{
    if b == 0 {
        0
    } else {
        1 + byte_bits((b / 2) as u8)
    }
}

/// The number of significant bits of a big-endian number without leading
/// zero bytes.
pub open spec fn bit_length(be: Seq<u8>) -> nat {
    if be.len() == 0 {
        0
    } else {
        (8 * (be.len() - 1) + byte_bits(be[0])) as nat
    }
}

/// Two to the power `k`.
pub open spec fn two_to(k: nat) -> int
    decreases k,
{
    if k == 0 {
        1
    } else {
        2 * two_to((k - 1) as nat)
    }
}

proof fn lemma_byte_bits_below(b: u8, k: nat)
    requires
        (b as int) < two_to(k),
    ensures
        byte_bits(b) <= k,
    decreases k,
{
    if b != 0 {
        assert(k > 0);
        lemma_byte_bits_below((b / 2) as u8, (k - 1) as nat);
    }
}

/// The number of significant bits of the big-endian number `be`, which has
/// no leading zero byte.
pub fn bit_length_of(be: &[u8]) -> (r: u64)
    requires
        be@.len() < MAX_KEY_BYTES,
    ensures
        r == bit_length(be@),
{
    if be.len() == 0 {
        return 0;
    }
    let mut b: u8 = be[0];
    let mut bits: u64 = 0;
    proof {
        reveal_with_fuel(two_to, 9);
        assert(two_to(8) == 256);
        lemma_byte_bits_below(b, 8);
    }
    while b != 0
        invariant
            bits + byte_bits(b) == byte_bits(be@[0]),
            byte_bits(be@[0]) <= 8,
        decreases b,
    {
        b = b / 2;
        bits = bits + 1;
    }
    8 * (be.len() as u64 - 1) + bits
}

/// The parts of an RSA private key that the device takes.
#[derive(Clone, Debug)]
pub struct RsaKeyParts {
    /// The modulus, big-endian.
    pub n: Vec<u8>,
    /// The first prime, big-endian.
    pub p: Vec<u8>,
    /// The second prime, big-endian.
    pub q: Vec<u8>,
    pub algorithm: RsaAlgorithm,
}

/// Why a PEM file does not give a key for the device.
#[derive(Clone, Copy, Debug, PartialEq, Eq, Structural)]
pub enum PemImportError {
    /// The PEM framing or its base64 is malformed.
    BadPem,
    /// The block is not an `RSA PRIVATE KEY`.
    NotRsaPrivateKey,
    /// The block does not hold a DER `RSAPrivateKey`.
    BadKey,
    /// The device does not take the key.
    Key(KeyImportError),
}

/// The tag of a PEM block that holds an RSA private key.
pub open spec fn rsa_private_key_tag() -> Seq<char> {
    seq!['R', 'S', 'A', ' ', 'P', 'R', 'I', 'V', 'A', 'T', 'E', ' ', 'K', 'E', 'Y']
}

/// Reads the key of a PEM `RSA PRIVATE KEY` block and chooses the device
/// algorithm for its size.
pub fn rsa_key_from_pem(pem_bytes: &[u8]) -> (r: Result<RsaKeyParts, PemImportError>)
    ensures
        pem_of(pem_bytes@) is None ==> r == Err::<RsaKeyParts, PemImportError>(
            PemImportError::BadPem,
        ),
        pem_of(pem_bytes@) matches Some((tag, der)) ==> {
            &&& tag != rsa_private_key_tag() ==> r == Err::<RsaKeyParts, PemImportError>(
                PemImportError::NotRsaPrivateKey,
            )
            &&& tag == rsa_private_key_tag() && rsa_private_key_of(der) is None ==> r == Err::<
                RsaKeyParts,
                PemImportError,
            >(PemImportError::BadKey)
            &&& tag == rsa_private_key_tag() ==> (rsa_private_key_of(der) matches Some((n, p, q))
                ==> n.len() >= MAX_KEY_BYTES ==> r == Err::<RsaKeyParts, PemImportError>(
                PemImportError::Key(KeyImportError::UnknownKeySize(u64::MAX)),
            ))
            &&& tag == rsa_private_key_tag() ==> (rsa_private_key_of(der) matches Some((n, p, q))
                ==> n.len() < MAX_KEY_BYTES ==> match algorithm_for_bits(bit_length(n) as u64) {
                Ok(a) => r is Ok && r->Ok_0.n@ == n && r->Ok_0.p@ == p && r->Ok_0.q@ == q
                    && r->Ok_0.algorithm == a,
                Err(e) => r == Err::<RsaKeyParts, PemImportError>(PemImportError::Key(e)),
            })
        },
{
    let (tag, der) = match parse_pem(pem_bytes) {
        Some(block) => block,
        None => return Err(PemImportError::BadPem),
    };
    let expected = String::from_str("RSA PRIVATE KEY");
    proof {
        reveal_strlit("RSA PRIVATE KEY");
        assert(expected@ =~= rsa_private_key_tag());
    }
    if tag != expected {
        return Err(PemImportError::NotRsaPrivateKey);
    }
    let ints = match parse_der_integers(der.as_slice()) {
        Some(ints) => ints,
        None => return Err(PemImportError::BadKey),
    };
    if ints.len() != 9 || ints[0].len() != 1 {
        return Err(PemImportError::BadKey);
    }
    let n = copy_bytes(ints[1].as_slice());
    let p = copy_bytes(ints[4].as_slice());
    let q = copy_bytes(ints[5].as_slice());
    if n.len() >= MAX_KEY_BYTES {
        return Err(PemImportError::Key(KeyImportError::UnknownKeySize(u64::MAX)));
    }
    match rsa_algorithm(bit_length_of(n.as_slice())) {
        Ok(algorithm) => Ok(RsaKeyParts { n, p, q, algorithm }),
        Err(e) => Err(PemImportError::Key(e)),
    }
}

} // verus!

verus! {

impl Configuration {
    /// Stores a secret whose key the device holds under object id `hsm_id`,
    /// with its PGP key id if it was imported from a PGP packet.
    pub fn store_key(&mut self, hsm_id: u16, key_id: Option<u64>, name: &str, threshold: i32) -> (r:
        Result<(), StoreError>)
        requires
            old(self).wf(),
        ensures
            final(self).wf(),
            final(self).users == old(self).users,
            final(self).weights == old(self).weights,
            final(self).fero_logs == old(self).fero_logs,
            final(self).hsm_logs == old(self).hsm_logs,
            name@.len() == 0 ==> r == Err::<(), StoreError>(StoreError::EmptyName),
            name@.len() > 0 && threshold < 0 ==> r == Err::<(), StoreError>(
                StoreError::InvalidThreshold,
            ),
            name@.len() > 0 && threshold >= 0 && (old(self).has_secret(name@) || old(
                self,
            ).has_hsm_id(hsm_id as i32)) ==> r == Err::<(), StoreError>(StoreError::DuplicateSecret),
            r is Err ==> final(self).secrets@ == old(self).secrets@,
            r is Ok ==> {
                let s = final(self).secrets@.last();
                &&& final(self).secrets@.drop_last() == old(self).secrets@
                &&& s.hsm_id == hsm_id as i32
                &&& s.key_id == match key_id {
                    Some(k) => Some(k as i64),
                    None => None,
                }
                &&& s.name@ == name@
                &&& s.threshold == threshold
            },
            name@.len() > 0 && threshold >= 0 && !(old(self).has_secret(name@) || old(
                self,
            ).has_hsm_id(hsm_id as i32)) && old(self).secrets@.len() < crate::store::MAX_ROW_ID
                ==> r is Ok,
    {
        let key_id = match key_id {
            Some(k) => Some(k as i64),
            None => None,
        };
        self.insert_secret_key(hsm_id as i32, key_id, name, threshold)
    }
}

} // verus!
