//! The operations of the signing service, apart from the device and the
//! network: canonical payloads, the changes that an admitted request makes,
//! the choice of signature, and the status that each failure maps to.
use vstd::prelude::*;
use vstd::string::StringSliceAdditionalSpecFns;
use vstd::utf8::{encode_utf8, encode_utf8_valid_utf8, valid_utf8};

use crate::auth::{admits, signer_ids, AuthError, AuthenticatedConnection, SignatureCheck};
use crate::codec::{
    copy_range, i32_be, lemma_u32_round_trip, push_all, push_i32, push_u32, push_u64, read_u32,
    u32_be, u64_be,
};
use crate::digest::{der_digest_info, digest_info, sha256, sha256_digest_info_prefix, sha256_of};
use crate::signing::{hash_algorithm_oid, hash_oid_of, HashAlgorithm};
use crate::log::{opt_bytes, HsmLogEntry, OperationResult, OperationType, Timestamp};
use crate::store::{
    logs_kept, operation_logged, weight_set, Configuration, FeroLog, LogAppendError, StoreError,
};

verus! {

/// What a request to set a threshold signs: the secret's name in UTF-8,
/// then the threshold.
pub open spec fn threshold_payload_of(name: Seq<u8>, threshold: i32) -> Seq<u8> {
    name + i32_be(threshold)
}

/// What a request to set a weight signs: the secret's name in UTF-8, then
/// the user's key id, then the weight.
pub open spec fn weight_payload_of(name: Seq<u8>, user_key_id: u64, weight: i32) -> Seq<u8> {
    name + u64_be(user_key_id) + i32_be(weight)
}

/// The canonical payload of a request to set the threshold of a secret.
pub fn threshold_payload(secret_name: &str, threshold: i32) -> (r: Vec<u8>)
    ensures
        r@ == threshold_payload_of(secret_name.spec_bytes(), threshold),
{
    let mut out: Vec<u8> = Vec::new();
    push_all(&mut out, secret_name.as_bytes());
    push_i32(&mut out, threshold);
    out
}

/// The canonical payload of a request to set a user's weight for a secret.
pub fn weight_payload(secret_name: &str, user_key_id: u64, weight: i32) -> (r: Vec<u8>)
    ensures
        r@ == weight_payload_of(secret_name.spec_bytes(), user_key_id, weight),
{
    let mut out: Vec<u8> = Vec::new();
    push_all(&mut out, secret_name.as_bytes());
    push_u64(&mut out, user_key_id);
    push_i32(&mut out, weight);
    assert(out@ =~= weight_payload_of(secret_name.spec_bytes(), user_key_id, weight));
    out
}

/// Why an operation failed.
#[derive(Clone, Copy, Debug, PartialEq, Eq, Structural)]
pub enum ServiceError {
    /// The request was not admitted.
    Auth(AuthError),
    /// No user with the requested key id is stored.
    UnknownUser,
    /// A threshold must not be negative.
    InvalidThreshold,
    /// A PGP signature was asked of a secret that has no PGP key id.
    NotPgpKey,
    /// The store refused the change.
    Store(StoreError),
}

/// The status with which a failed request is answered.
#[derive(Clone, Copy, Debug, PartialEq, Eq, Structural)]
pub enum StatusCode {
    PermissionDenied,
    InvalidArgument,
    Aborted,
}

/// The status for a failure: refusals of authority are `PermissionDenied`,
/// bad thresholds, weights and users are `InvalidArgument`, and failures of
/// the store are `Aborted`.
pub open spec fn status_of_spec(e: ServiceError) -> StatusCode {
    match e {
        ServiceError::Auth(_) => StatusCode::PermissionDenied,
        ServiceError::NotPgpKey => StatusCode::PermissionDenied,
        ServiceError::UnknownUser => StatusCode::InvalidArgument,
        ServiceError::InvalidThreshold => StatusCode::InvalidArgument,
        ServiceError::Store(_) => StatusCode::Aborted,
    }
}

/// The status with which a request that failed with `e` is answered.
pub fn status_of(e: ServiceError) -> (r: StatusCode)
    ensures
        r == status_of_spec(e),
{
    match e {
        ServiceError::Auth(_) => StatusCode::PermissionDenied,
        ServiceError::NotPgpKey => StatusCode::PermissionDenied,
        ServiceError::UnknownUser => StatusCode::InvalidArgument,
        ServiceError::InvalidThreshold => StatusCode::InvalidArgument,
        ServiceError::Store(_) => StatusCode::Aborted,
    }
}

impl Configuration {
    /// Sets the threshold of the secret that `conn` grants access to.
    pub fn set_threshold(&mut self, conn: &AuthenticatedConnection, threshold: i32) -> (r: Result<
        (),
        ServiceError,
    >)
        requires
            old(self).wf(),
        ensures
            final(self).wf(),
            final(self).users == old(self).users,
            final(self).weights == old(self).weights,
            final(self).fero_logs == old(self).fero_logs,
            final(self).hsm_logs == old(self).hsm_logs,
            threshold < 0 ==> r == Err::<(), ServiceError>(ServiceError::InvalidThreshold),
            threshold >= 0 && !old(self).has_secret(conn.secret_name@) ==> r == Err::<
                (),
                ServiceError,
            >(ServiceError::Store(StoreError::UnknownSecret)),
            r is Err ==> final(self).secrets@ == old(self).secrets@,
            threshold >= 0 && old(self).has_secret(conn.secret_name@) ==> r is Ok,
            r is Ok ==> exists|s: int|
                0 <= s < old(self).secrets@.len() && (#[trigger] old(self).secrets@[s]).name@
                    == conn.secret_name@ && final(self).secrets@ == old(self).secrets@.update(
                    s,
                    crate::store::SecretKey { threshold, ..old(self).secrets@[s] },
                ),
    {
        if threshold < 0 {
            return Err(ServiceError::InvalidThreshold);
        }
        match self.set_secret_key_threshold(&conn.secret_name, threshold) {
            Ok(()) => Ok(()),
            Err(e) => Err(ServiceError::Store(e)),
        }
    }

    /// Sets the weight, for the secret that `conn` grants access to, of the
    /// user with key id `user_key_id`.
    pub fn set_weight(&mut self, conn: &AuthenticatedConnection, user_key_id: u64, weight: i32) -> (r:
        Result<(), ServiceError>)
        requires
            old(self).wf(),
        ensures
            final(self).wf(),
            final(self).secrets == old(self).secrets,
            final(self).users == old(self).users,
            final(self).fero_logs == old(self).fero_logs,
            final(self).hsm_logs == old(self).hsm_logs,
            !old(self).has_user(user_key_id as i64) ==> r == Err::<(), ServiceError>(
                ServiceError::UnknownUser,
            ),
            old(self).has_user(user_key_id as i64) && !old(self).has_secret(conn.secret_name@) ==> r
                == Err::<(), ServiceError>(ServiceError::Store(StoreError::UnknownSecret)),
            r is Err ==> final(self).weights@ == old(self).weights@,
            r is Ok ==> exists|s: int, u: int|
                0 <= s < old(self).secrets@.len() && (#[trigger] old(self).secrets@[s]).name@
                    == conn.secret_name@ && 0 <= u < old(self).users@.len() && (#[trigger] old(
                    self,
                ).users@[u]).key_id == user_key_id as i64 && weight_set(
                    old(self).weights@,
                    final(self).weights@,
                    old(self).users@[u].id,
                    old(self).secrets@[s].id,
                    weight,
                ),
            old(self).has_user(user_key_id as i64) && old(self).has_secret(conn.secret_name@)
                && old(self).weights@.len() < crate::store::MAX_ROW_ID ==> r is Ok,
    {
        let u = match self.find_user(user_key_id as i64) {
            Some(u) => u,
            None => return Err(ServiceError::UnknownUser),
        };
        let user_id = self.users[u].id;
        let ghost users = self.users@;
        match self.upsert_user_key_weight(&conn.secret_name, user_id, weight) {
            Ok(()) => {
                assert(users[u as int].key_id == user_key_id as i64);
                Ok(())
            },
            Err(e) => Err(ServiceError::Store(e)),
        }
    }
}

} // verus!

verus! {

/// The kind of signature that a signing request asks for.
#[derive(Clone, Copy, Debug, PartialEq, Eq, Structural)]
pub enum SignatureType {
    /// An OpenPGP signature packet over the artifact.
    Pgp,
    /// The raw RSA PKCS#1 v1.5 signature of the artifact's SHA-256 digest.
    Pkcs1v15,
}

/// How the device is to sign for an admitted request.
#[derive(Clone, Copy, Debug, PartialEq, Eq, Structural)]
pub struct SigningPlan {
    /// The device's object id of the key.
    pub hsm_key: u16,
    /// The PGP key id to name as the signer, for a PGP signature.
    pub pgp_key_id: Option<u64>,
}

/// Decides how to sign for `conn`: a PGP signature needs a secret with a PGP
/// key id; a raw signature can be made with any secret.
pub fn plan_signature(conn: &AuthenticatedConnection, sig_type: SignatureType) -> (r: Result<
    SigningPlan,
    ServiceError,
>)
    ensures
        sig_type == SignatureType::Pgp && conn.secret_key is None ==> r == Err::<
            SigningPlan,
            ServiceError,
        >(ServiceError::NotPgpKey),
        sig_type == SignatureType::Pgp && conn.secret_key is Some ==> r == Ok::<
            SigningPlan,
            ServiceError,
        >(SigningPlan { hsm_key: conn.hsm_id as u16, pgp_key_id: conn.secret_key }),
        sig_type == SignatureType::Pkcs1v15 ==> r == Ok::<SigningPlan, ServiceError>(
            SigningPlan { hsm_key: conn.hsm_id as u16, pgp_key_id: None },
        ),
{
    let hsm_key = conn.get_hsm_key_id();
    match sig_type {
        SignatureType::Pgp => match conn.get_pgp_key_id() {
            Some(id) => Ok(SigningPlan { hsm_key, pgp_key_id: Some(id) }),
            None => Err(ServiceError::NotPgpKey),
        },
        SignatureType::Pkcs1v15 => Ok(SigningPlan { hsm_key, pgp_key_id: None }),
    }
}

/// What the device signs, without hashing it again, for a PKCS#1 v1.5
/// signature over `data` with SHA-256: the DER `DigestInfo` that names
/// SHA-256 and holds the digest of `data`.
pub fn pkcs1_digest_info(data: &[u8]) -> (r: Vec<u8>)
    ensures
        r@ == der_digest_info(hash_oid_of(HashAlgorithm::Sha256), sha256_of(data@)),
        r@ == sha256_digest_info_prefix() + sha256_of(data@),
{
    let oid = match hash_algorithm_oid(HashAlgorithm::Sha256) {
        Some(oid) => oid,
        None => Vec::new(),
    };
    let digest = sha256(data);
    digest_info(oid.as_slice(), digest.as_slice())
}

/// The RSA key sizes that the device takes.
#[derive(Clone, Copy, Debug, PartialEq, Eq, Structural)]
pub enum RsaAlgorithm {
    Rsa2048,
    Rsa4096,
}

/// Why a private key cannot be put on the device.
#[derive(Clone, Copy, Debug, PartialEq, Eq, Structural)]
pub enum KeyImportError {
    /// The device does not take 1024-bit RSA keys.
    Rsa1024Unsupported,
    /// A modulus of another size.
    UnknownKeySize(u64),
    /// Every object id of the device is in use.
    NoFreeObjectId,
}

/// The device algorithm for an RSA modulus of `bits` bits.
pub open spec fn algorithm_for_bits(bits: u64) -> Result<RsaAlgorithm, KeyImportError> {
    if bits == 1024 {
        Err(KeyImportError::Rsa1024Unsupported)
    } else if bits == 2048 {
        Ok(RsaAlgorithm::Rsa2048)
    } else if bits == 4096 {
        Ok(RsaAlgorithm::Rsa4096)
    } else {
        Err(KeyImportError::UnknownKeySize(bits))
    }
}

/// The device algorithm for an RSA modulus of `bits` bits: 2048 and 4096
/// bits are taken, 1024 bits are refused.
pub fn rsa_algorithm(bits: u64) -> (r: Result<RsaAlgorithm, KeyImportError>)
    ensures
        r == algorithm_for_bits(bits),
{
    if bits == 1024 {
        Err(KeyImportError::Rsa1024Unsupported)
    } else if bits == 2048 {
        Ok(RsaAlgorithm::Rsa2048)
    } else if bits == 4096 {
        Ok(RsaAlgorithm::Rsa4096)
    } else {
        Err(KeyImportError::UnknownKeySize(bits))
    }
}

/// Whether `id` is among `used`.
pub fn contains_id(used: &[u16], id: u16) -> (r: bool)
    ensures
        r == used@.contains(id),
{
    let mut i: usize = 0;
    while i < used.len()
        invariant
            i <= used@.len(),
            forall|j: int| 0 <= j < i ==> used@[j] != id,
        decreases used@.len() - i,
    {
        if used[i] == id {
            assert(used@[i as int] == id);
            return true;
        }
        i = i + 1;
    }
    false
}

/// The lowest object id, from 1 up, that is not in `used`.
pub fn lowest_free_object_id(used: &[u16]) -> (r: Result<u16, KeyImportError>)
    ensures
        r is Ok ==> {
            let id = r->Ok_0;
            &&& 1 <= id
            &&& !used@.contains(id)
            &&& forall|d: u16| 1 <= d < id ==> used@.contains(d)
        },
        r is Err ==> r == Err::<u16, KeyImportError>(KeyImportError::NoFreeObjectId) && forall|
            d: u16,
        |
            1 <= d ==> used@.contains(d),
{
    let mut id: u16 = 1;
    loop
        invariant
            1 <= id,
            forall|d: u16| 1 <= d < id ==> used@.contains(d),
        decreases 0xffff - id,
    {
        if !contains_id(used, id) {
            return Ok(id);
        }
        if id == 0xffff {
            return Err(KeyImportError::NoFreeObjectId);
        }
        id = id + 1;
    }
}

/// The longest time, in milliseconds, to keep reconnecting to the device
/// after a reset.
pub const RECONNECT_BUDGET_MS: u64 = 5000;

/// The first pause, in milliseconds, between attempts to reconnect.
pub const RECONNECT_FIRST_BACKOFF_MS: u64 = 15;

/// After a failed attempt to reconnect, `elapsed_ms` after the first one,
/// with a pause of `backoff_ms` due: gives up once the budget is spent,
/// otherwise gives the pause to take now and the doubled pause for next
/// time.
pub fn next_reconnect(elapsed_ms: u64, backoff_ms: u64) -> (r: Option<(u64, u64)>)
    ensures
        elapsed_ms > RECONNECT_BUDGET_MS ==> r is None,
        elapsed_ms <= RECONNECT_BUDGET_MS ==> r == Some(
            (
                backoff_ms,
                if backoff_ms <= u64::MAX / 2 {
                    (backoff_ms * 2) as u64
                } else {
                    u64::MAX
                },
            ),
        ),
{
    if elapsed_ms > RECONNECT_BUDGET_MS {
        None
    } else if backoff_ms <= u64::MAX / 2 {
        Some((backoff_ms, backoff_ms * 2))
    } else {
        Some((backoff_ms, u64::MAX))
    }
}

impl Configuration {
    /// Sets a user's weight for a secret by name, without a quorum: the
    /// administrative path inside the trust boundary. The change, success or
    /// failure, is logged with the device entries `mirror`.
    pub fn set_user_weight(
        &mut self,
        user_key: u64,
        secret_name: &String,
        weight: i32,
        timestamp: Timestamp,
        mirror: Vec<HsmLogEntry>,
    ) -> (r: (Result<(), ServiceError>, Result<u16, LogAppendError>))
        requires
            old(self).wf(),
        ensures
            final(self).wf(),
            final(self).secrets == old(self).secrets,
            final(self).users == old(self).users,
            !old(self).has_user(user_key as i64) ==> r.0 == Err::<(), ServiceError>(
                ServiceError::UnknownUser,
            ),
            old(self).has_user(user_key as i64) && !old(self).has_secret(secret_name@) ==> r.0
                == Err::<(), ServiceError>(ServiceError::Store(StoreError::UnknownSecret)),
            r.0 is Err ==> final(self).weights@ == old(self).weights@,
            r.0 is Ok ==> exists|s: int, u: int|
                0 <= s < old(self).secrets@.len() && (#[trigger] old(self).secrets@[s]).name@
                    == secret_name@ && 0 <= u < old(self).users@.len() && (#[trigger] old(
                    self,
                ).users@[u]).key_id == user_key as i64 && weight_set(
                    old(self).weights@,
                    final(self).weights@,
                    old(self).users@[u].id,
                    old(self).secrets@[s].id,
                    weight,
                ),
            old(self).has_user(user_key as i64) && old(self).has_secret(secret_name@) && old(
                self,
            ).weights@.len() < crate::store::MAX_ROW_ID ==> r.0 is Ok,
            old(self).appendable(mirror@) ==> r.1 is Ok,
            r.1 is Ok ==> operation_logged(*old(self), *final(self)),
            r.1 is Err ==> logs_kept(*old(self), *final(self)),
            r.1 is Ok ==> logged_last(
                final(self).fero_logs@,
                OperationType::Weight,
                outcome_of(r.0),
                timestamp,
                None,
            ),
    {
        let conn = AuthenticatedConnection {
            secret_key: None,
            secret_name: secret_name.clone(),
            hsm_id: 0,
        };
        let outcome = self.set_weight(&conn, user_key, weight);
        let logged = match &outcome {
            Ok(_) => OperationResult::Success,
            Err(_) => OperationResult::Failure,
        };
        let appended = self.log_operation(OperationType::Weight, logged, None, timestamp, mirror);
        (outcome, appended)
    }
}

/// Whether the last entry of the service log `f` records an operation of
/// type `ty` with outcome `result` at `timestamp` and identification
/// `identification`.
pub open spec fn logged_last(
    f: Seq<FeroLog>,
    ty: OperationType,
    result: OperationResult,
    timestamp: Timestamp,
    identification: Option<Seq<u8>>,
) -> bool {
    &&& f.len() >= 2
    &&& f.last().request_type == ty
    &&& f.last().result == result
    &&& f.last().timestamp == timestamp
    &&& opt_bytes(f.last().identification) == identification
}

impl Configuration {
    /// Logs a signing request with its outcome, success or failure, the
    /// identification, and the device entries `mirror`, which include the
    /// device's signing if there was one.
    pub fn log_sign(
        &mut self,
        ident: &Identification,
        signed: &Result<Vec<u8>, ServiceError>,
        timestamp: Timestamp,
        mirror: Vec<HsmLogEntry>,
    ) -> (r: Result<u16, LogAppendError>)
        requires
            old(self).wf(),
            ident.encodable(),
        ensures
            final(self).wf(),
            final(self).secrets == old(self).secrets,
            final(self).users == old(self).users,
            final(self).weights == old(self).weights,
            old(self).appendable(mirror@) ==> r is Ok,
            r is Ok ==> operation_logged(*old(self), *final(self)),
            r is Err ==> logs_kept(*old(self), *final(self)),
            r is Ok ==> logged_last(
                final(self).fero_logs@,
                OperationType::Sign,
                outcome_of(*signed),
                timestamp,
                Some(identification_bytes(encode_utf8(ident.secret_name@), ident.signature_views())),
            ),
    {
        let logged = match signed {
            Ok(_) => OperationResult::Success,
            Err(_) => OperationResult::Failure,
        };
        self.log_operation(OperationType::Sign, logged, Some(ident.to_bytes()), timestamp, mirror)
    }

    /// Enrols a user, and logs the enrolment, success or failure, with the
    /// device entries `mirror`.
    pub fn store_user(
        &mut self,
        key_id: u64,
        key_data: &[u8],
        timestamp: Timestamp,
        mirror: Vec<HsmLogEntry>,
    ) -> (r: (Result<(), StoreError>, Result<u16, LogAppendError>))
        requires
            old(self).wf(),
        ensures
            final(self).wf(),
            final(self).secrets == old(self).secrets,
            final(self).weights == old(self).weights,
            old(self).has_user(key_id as i64) ==> r.0 == Err::<(), StoreError>(
                StoreError::DuplicateUser,
            ),
            !old(self).has_user(key_id as i64) && old(self).users@.len()
                < crate::store::MAX_ROW_ID ==> r.0 is Ok,
            r.0 is Err ==> final(self).users@ == old(self).users@,
            r.0 is Ok ==> {
                let u = final(self).users@.last();
                &&& final(self).users@.drop_last() == old(self).users@
                &&& u.key_id == key_id as i64
                &&& u.key_data@ == key_data@
            },
            old(self).appendable(mirror@) ==> r.1 is Ok,
            r.1 is Ok ==> operation_logged(*old(self), *final(self)),
            r.1 is Err ==> logs_kept(*old(self), *final(self)),
            r.1 is Ok ==> logged_last(
                final(self).fero_logs@,
                OperationType::AddUser,
                if r.0 is Ok {
                    OperationResult::Success
                } else {
                    OperationResult::Failure
                },
                timestamp,
                None,
            ),
    {
        let outcome = self.insert_user_key(key_id, key_data);
        let logged = match &outcome {
            Ok(_) => OperationResult::Success,
            Err(_) => OperationResult::Failure,
        };
        let appended = self.log_operation(OperationType::AddUser, logged, None, timestamp, mirror);
        (outcome, appended)
    }

    /// Records a secret whose key the device now holds under object id
    /// `hsm_id`, and logs the import, success or failure, with the device
    /// entries `mirror`. An import that the device refused is logged as a
    /// failure with `append_operation`.
    pub fn import_secret(
        &mut self,
        hsm_id: u16,
        key_id: Option<u64>,
        name: &str,
        threshold: i32,
        timestamp: Timestamp,
        mirror: Vec<HsmLogEntry>,
    ) -> (r: (Result<(), StoreError>, Result<u16, LogAppendError>))
        requires
            old(self).wf(),
        ensures
            final(self).wf(),
            final(self).users == old(self).users,
            final(self).weights == old(self).weights,
            name@.len() == 0 ==> r.0 == Err::<(), StoreError>(StoreError::EmptyName),
            name@.len() > 0 && threshold < 0 ==> r.0 == Err::<(), StoreError>(
                StoreError::InvalidThreshold,
            ),
            name@.len() > 0 && threshold >= 0 && (old(self).has_secret(name@) || old(
                self,
            ).has_hsm_id(hsm_id as i32)) ==> r.0 == Err::<(), StoreError>(StoreError::DuplicateSecret),
            name@.len() > 0 && threshold >= 0 && !(old(self).has_secret(name@) || old(
                self,
            ).has_hsm_id(hsm_id as i32)) && old(self).secrets@.len() < crate::store::MAX_ROW_ID
                ==> r.0 is Ok,
            r.0 is Err ==> final(self).secrets@ == old(self).secrets@,
            r.0 is Ok ==> {
                let s = final(self).secrets@.last();
                &&& final(self).secrets@.drop_last() == old(self).secrets@
                &&& s.hsm_id == hsm_id as i32
                &&& s.key_id == match key_id {
                    Some(k) => Some(k as i64),
                    None => None,
                }
                &&& s.name@ == name@
                &&& s.threshold == threshold
            },
            old(self).appendable(mirror@) ==> r.1 is Ok,
            r.1 is Ok ==> operation_logged(*old(self), *final(self)),
            r.1 is Err ==> logs_kept(*old(self), *final(self)),
            r.1 is Ok ==> logged_last(
                final(self).fero_logs@,
                OperationType::AddSecret,
                if r.0 is Ok {
                    OperationResult::Success
                } else {
                    OperationResult::Failure
                },
                timestamp,
                None,
            ),
    {
        let outcome = self.store_key(hsm_id, key_id, name, threshold);
        let logged = match &outcome {
            Ok(_) => OperationResult::Success,
            Err(_) => OperationResult::Failure,
        };
        let appended = self.log_operation(OperationType::AddSecret, logged, None, timestamp, mirror);
        (outcome, appended)
    }
}

} // verus!

verus! {

/// Who asks for an operation: the secret's name and the detached PGP
/// signatures of the key holders over the request's canonical payload.
#[derive(Clone, Debug)]
pub struct Identification {
    pub secret_name: String,
    pub signatures: Vec<Vec<u8>>,
}

/// The views of a run of byte vectors.
pub open spec fn views_of(v: Seq<Vec<u8>>) -> Seq<Seq<u8>> {
    v.map_values(|s: Vec<u8>| s@)
}

/// The bytes of one field: its length as a big-endian `u32`, then itself.
pub open spec fn field_bytes(b: Seq<u8>) -> Seq<u8> {
    u32_be(b.len() as u32) + b
}

/// The bytes of a run of signatures, one field each.
pub open spec fn signatures_bytes(sigs: Seq<Seq<u8>>) -> Seq<u8>
    decreases sigs.len(),
{
    if sigs.len() == 0 {
        Seq::empty()
    } else {
        signatures_bytes(sigs.drop_last()) + field_bytes(sigs.last())
    }
}

/// The bytes under which an identification is logged: the name as a field,
/// the number of signatures as a big-endian `u32`, then each signature as a
/// field.
pub open spec fn identification_bytes(name: Seq<u8>, sigs: Seq<Seq<u8>>) -> Seq<u8> {
    field_bytes(name) + u32_be(sigs.len() as u32) + signatures_bytes(sigs)
}

impl Identification {
    /// Whether every length fits in a `u32` field.
    pub open spec fn encodable(&self) -> bool {
        &&& encode_utf8(self.secret_name@).len() <= u32::MAX
        &&& self.signatures@.len() <= u32::MAX
        &&& forall|i: int|
            0 <= i < self.signatures@.len() ==> (#[trigger] self.signatures@[i])@.len() <= u32::MAX
    }

    pub open spec fn signature_views(&self) -> Seq<Seq<u8>> {
        views_of(self.signatures@)
    }

    /// The bytes under which this identification is logged.
    pub fn to_bytes(&self) -> (r: Vec<u8>)
        requires
            self.encodable(),
        ensures
            r@ == identification_bytes(encode_utf8(self.secret_name@), self.signature_views()),
    {
        let mut out: Vec<u8> = Vec::new();
        let name = self.secret_name.as_str().as_bytes();
        push_u32(&mut out, name.len() as u32);
        push_all(&mut out, name);
        push_u32(&mut out, self.signatures.len() as u32);
        let ghost head = out@;
        let mut i: usize = 0;
        while i < self.signatures.len()
            invariant
                i <= self.signatures@.len(),
                self.encodable(),
                out@ == head + signatures_bytes(self.signature_views().subrange(0, i as int)),
            decreases self.signatures@.len() - i,
        {
            let sig = self.signatures[i].as_slice();
            push_u32(&mut out, sig.len() as u32);
            push_all(&mut out, sig);
            proof {
                let pre = self.signature_views().subrange(0, i + 1);
                assert(pre.drop_last() =~= self.signature_views().subrange(0, i as int));
                assert(pre.last() == self.signatures@[i as int]@);
            }
            i = i + 1;
        }
        assert(self.signature_views().subrange(0, i as int) =~= self.signature_views());
        out
    }
}

/// The logged outcome of an operation.
pub open spec fn outcome_of<T>(r: Result<T, ServiceError>) -> OperationResult {
    if r is Ok {
        OperationResult::Success
    } else {
        OperationResult::Failure
    }
}

impl Configuration {
    /// Handles a request to set a threshold: admits it by the checked
    /// signatures, sets the threshold, and logs the outcome, success or
    /// failure, with the identification and the device entries `mirror`.
    /// Gives the outcome of the operation, and that of the logging.
    pub fn handle_threshold(
        &mut self,
        ident: &Identification,
        checks: &[SignatureCheck],
        threshold: i32,
        timestamp: Timestamp,
        mirror: Vec<HsmLogEntry>,
    ) -> (r: (Result<(), ServiceError>, Result<u16, LogAppendError>))
        requires
            old(self).wf(),
            ident.encodable(),
        ensures
            final(self).wf(),
            final(self).users == old(self).users,
            final(self).weights == old(self).weights,
            r.0 is Ok <==> exists|s: int|
                0 <= s < old(self).secrets@.len() && (#[trigger] old(self).secrets@[s]).name@
                    == ident.secret_name@ && admits(
                    old(self).users@,
                    old(self).weights@,
                    old(self).secrets@[s],
                    checks@,
                ) && threshold >= 0,
            r.0 is Ok ==> exists|s: int|
                0 <= s < old(self).secrets@.len() && (#[trigger] old(self).secrets@[s]).name@
                    == ident.secret_name@ && final(self).secrets@ == old(self).secrets@.update(
                    s,
                    crate::store::SecretKey { threshold, ..old(self).secrets@[s] },
                ),
            r.0 is Err ==> final(self).secrets@ == old(self).secrets@,
            old(self).appendable(mirror@) ==> r.1 is Ok,
            r.1 is Ok ==> operation_logged(*old(self), *final(self)),
            r.1 is Err ==> logs_kept(*old(self), *final(self)),
            r.1 is Ok ==> {
                let f = final(self).fero_logs@;
                &&& f.len() >= 2
                &&& f.last().request_type == OperationType::Threshold
                &&& f.last().result == outcome_of(r.0)
                &&& f.last().timestamp == timestamp
                &&& opt_bytes(f.last().identification) == Some(
                    identification_bytes(encode_utf8(ident.secret_name@), ident.signature_views()),
                )
            },
    {
        let ghost secrets = self.secrets@;
        let outcome = match self.authenticate(&ident.secret_name, checks) {
            Ok(conn) => {
                assert(secrets == self.secrets@);
                self.set_threshold(&conn, threshold)
            },
            Err(e) => Err(ServiceError::Auth(e)),
        };
        let logged = match &outcome {
            Ok(_) => OperationResult::Success,
            Err(_) => OperationResult::Failure,
        };
        let appended = self.log_operation(
            OperationType::Threshold,
            logged,
            Some(ident.to_bytes()),
            timestamp,
            mirror,
        );
        (outcome, appended)
    }
}

} // verus!

verus! {

impl Configuration {
    /// Handles a request to set a user's weight: admits it by the checked
    /// signatures, sets the weight, and logs the outcome, success or
    /// failure, with the identification and the device entries `mirror`.
    /// Gives the outcome of the operation, and that of the logging.
    pub fn handle_weight(
        &mut self,
        ident: &Identification,
        checks: &[SignatureCheck],
        user_key_id: u64,
        weight: i32,
        timestamp: Timestamp,
        mirror: Vec<HsmLogEntry>,
    ) -> (r: (Result<(), ServiceError>, Result<u16, LogAppendError>))
        requires
            old(self).wf(),
            ident.encodable(),
        ensures
            final(self).wf(),
            final(self).secrets == old(self).secrets,
            final(self).users == old(self).users,
            old(self).weights@.len() < crate::store::MAX_ROW_ID ==> (r.0 is Ok <==> old(
                self,
            ).has_user(user_key_id as i64) && exists|s: int|
                0 <= s < old(self).secrets@.len() && (#[trigger] old(self).secrets@[s]).name@
                    == ident.secret_name@ && admits(
                    old(self).users@,
                    old(self).weights@,
                    old(self).secrets@[s],
                    checks@,
                )),
            r.0 is Ok ==> old(self).has_user(user_key_id as i64) && exists|s: int|
                0 <= s < old(self).secrets@.len() && (#[trigger] old(self).secrets@[s]).name@
                    == ident.secret_name@ && admits(
                    old(self).users@,
                    old(self).weights@,
                    old(self).secrets@[s],
                    checks@,
                ),
            r.0 is Ok ==> exists|s: int, u: int|
                0 <= s < old(self).secrets@.len() && (#[trigger] old(self).secrets@[s]).name@
                    == ident.secret_name@ && 0 <= u < old(self).users@.len() && (#[trigger] old(
                    self,
                ).users@[u]).key_id == user_key_id as i64 && weight_set(
                    old(self).weights@,
                    final(self).weights@,
                    old(self).users@[u].id,
                    old(self).secrets@[s].id,
                    weight,
                ),
            r.0 is Err ==> final(self).weights@ == old(self).weights@,
            old(self).appendable(mirror@) ==> r.1 is Ok,
            r.1 is Ok ==> operation_logged(*old(self), *final(self)),
            r.1 is Err ==> logs_kept(*old(self), *final(self)),
            r.1 is Ok ==> {
                let f = final(self).fero_logs@;
                &&& f.len() >= 2
                &&& f.last().request_type == OperationType::Weight
                &&& f.last().result == outcome_of(r.0)
                &&& f.last().timestamp == timestamp
                &&& opt_bytes(f.last().identification) == Some(
                    identification_bytes(encode_utf8(ident.secret_name@), ident.signature_views()),
                )
            },
    {
        let outcome = match self.authenticate(&ident.secret_name, checks) {
            Ok(conn) => self.set_weight(&conn, user_key_id, weight),
            Err(e) => Err(ServiceError::Auth(e)),
        };
        let logged = match &outcome {
            Ok(_) => OperationResult::Success,
            Err(_) => OperationResult::Failure,
        };
        let appended = self.log_operation(
            OperationType::Weight,
            logged,
            Some(ident.to_bytes()),
            timestamp,
            mirror,
        );
        (outcome, appended)
    }

    /// Admits a signing request by the checked signatures and decides how
    /// the device is to sign. The request is then logged, with its outcome,
    /// by `append_operation`.
    pub fn authorize_sign(
        &self,
        ident: &Identification,
        checks: &[SignatureCheck],
        sig_type: SignatureType,
    ) -> (r: Result<SigningPlan, ServiceError>)
        requires
            self.wf(),
        ensures
            !self.has_secret(ident.secret_name@) ==> r == Err::<SigningPlan, ServiceError>(
                ServiceError::Auth(AuthError::UnknownSecret),
            ),
            forall|s: int|
                0 <= s < self.secrets@.len() && (#[trigger] self.secrets@[s]).name@
                    == ident.secret_name@ ==> {
                    let secret = self.secrets@[s];
                    &&& r is Ok <==> admits(self.users@, self.weights@, secret, checks@) && (sig_type
                        == SignatureType::Pkcs1v15 || secret.key_id is Some)
                    &&& signer_ids(checks@) is None ==> r == Err::<SigningPlan, ServiceError>(
                        ServiceError::Auth(AuthError::BadKeyId),
                    )
                    &&& signer_ids(checks@) is Some && !admits(
                        self.users@,
                        self.weights@,
                        secret,
                        checks@,
                    ) ==> r == Err::<SigningPlan, ServiceError>(
                        ServiceError::Auth(AuthError::InsufficientWeight),
                    )
                    &&& admits(self.users@, self.weights@, secret, checks@) && sig_type
                        == SignatureType::Pgp && secret.key_id is None ==> r == Err::<
                        SigningPlan,
                        ServiceError,
                    >(ServiceError::NotPgpKey)
                    &&& r is Ok ==> r->Ok_0.hsm_key == secret.hsm_id as u16 && r->Ok_0.pgp_key_id
                        == if sig_type == SignatureType::Pgp {
                        Some(secret.key_id->Some_0 as u64)
                    } else {
                        None
                    }
                },
    {
        match self.authenticate(&ident.secret_name, checks) {
            Ok(conn) => plan_signature(&conn, sig_type),
            Err(e) => Err(ServiceError::Auth(e)),
        }
    }
}

} // verus!

verus! {

/// Relies on `String::from_utf8`: it succeeds exactly on valid UTF-8, and
/// the string holds the vector's bytes.
#[verifier::external_body]
fn string_from_utf8(v: Vec<u8>) -> (r: Option<String>)
    ensures
        r is Some <==> valid_utf8(v@),
        r is Some ==> encode_utf8(r->Some_0@) == v@,
{
    String::from_utf8(v).ok()
}

/// The bytes of two runs of signatures are those of each, one after the
/// other.
pub proof fn lemma_signatures_bytes_append(a: Seq<Seq<u8>>, b: Seq<Seq<u8>>)
    ensures
        signatures_bytes(a + b) == signatures_bytes(a) + signatures_bytes(b),
    decreases b.len(),
{
    if b.len() == 0 {
        assert(a + b =~= a);
        assert(signatures_bytes(a) + signatures_bytes(b) =~= signatures_bytes(a));
    } else {
        lemma_signatures_bytes_append(a, b.drop_last());
        assert((a + b).drop_last() =~= a + b.drop_last());
        assert((a + b).last() == b.last());
        assert(signatures_bytes(a + b) =~= signatures_bytes(a) + signatures_bytes(b));
    }
}

/// Whether every length of a name and its signatures fits in a `u32`
/// field.
pub open spec fn parts_encodable(name: Seq<char>, sigs: Seq<Seq<u8>>) -> bool {
    &&& encode_utf8(name).len() <= u32::MAX
    &&& sigs.len() <= u32::MAX
    &&& forall|i: int| 0 <= i < sigs.len() ==> (#[trigger] sigs[i]).len() <= u32::MAX
}

/// Whether `b` is the logged form of some identification.
pub open spec fn is_identification_bytes(b: Seq<u8>) -> bool {
    exists|name: Seq<char>, sigs: Seq<Seq<u8>>|
        parts_encodable(name, sigs) && identification_bytes(encode_utf8(name), sigs) == b
}

proof fn lemma_u32_be_injective(a: u32, b: u32)
    requires
        u32_be(a) == u32_be(b),
    ensures
        a == b,
{
    lemma_u32_round_trip(a);
    lemma_u32_round_trip(b);
}

/// Where the signatures `done` have been read from `b`, the next field of
/// `b` holds the next signature of `all`.
proof fn lemma_field_at(b: Seq<u8>, base: int, pos: int, done: Seq<Seq<u8>>, all: Seq<Seq<u8>>)
    requires
        0 <= base <= pos <= b.len(),
        b.subrange(base, pos) == signatures_bytes(done),
        b.subrange(base, b.len() as int) == signatures_bytes(all),
        done == all.subrange(0, done.len() as int),
        done.len() < all.len(),
    ensures
        ({
            let x = all[done.len() as int];
            &&& pos + 4 + x.len() <= b.len()
            &&& b.subrange(pos, pos + 4) == u32_be(x.len() as u32)
            &&& b.subrange(pos + 4, pos + 4 + x.len()) == x
        }),
{
    let k = done.len() as int;
    let x = all[k];
    let tail = all.subrange(k, all.len() as int);
    let rest = all.subrange(k + 1, all.len() as int);
    lemma_signatures_bytes_append(done, tail);
    assert(done + tail =~= all);
    lemma_signatures_bytes_append(seq![x], rest);
    assert(seq![x] + rest =~= tail);
    assert(seq![x].drop_last() =~= Seq::<Seq<u8>>::empty());
    assert(seq![x].last() == x);
    assert(signatures_bytes(Seq::<Seq<u8>>::empty()) =~= Seq::<u8>::empty());
    assert(signatures_bytes(seq![x]) == signatures_bytes(seq![x].drop_last()) + field_bytes(x));
    assert(signatures_bytes(seq![x]) =~= field_bytes(x));
    let whole = b.subrange(base, b.len() as int);
    assert(whole.subrange(0, pos - base) =~= b.subrange(base, pos));
    assert(whole.subrange(pos - base, whole.len() as int) =~= b.subrange(pos, b.len() as int));
    assert(b.subrange(pos, b.len() as int) =~= field_bytes(x) + signatures_bytes(rest));
    assert(b.subrange(pos, pos + 4) =~= b.subrange(pos, b.len() as int).subrange(0, 4));
    assert(b.subrange(pos + 4, pos + 4 + x.len()) =~= b.subrange(pos, b.len() as int).subrange(4, 4 + x.len() as int));
}

impl Identification {
    /// Reads an identification from the bytes under which it is logged.
    #[verifier::rlimit(50)]
    pub fn from_bytes(bytes: &[u8]) -> (r: Option<Identification>)
        ensures
            r is Some ==> r->Some_0.encodable() && identification_bytes(
                encode_utf8(r->Some_0.secret_name@),
                r->Some_0.signature_views(),
            ) == bytes@,
            is_identification_bytes(bytes@) ==> r is Some,
    {
        let ghost complete = is_identification_bytes(bytes@);
        let ghost (w_name, w_sigs) = if complete {
            choose|name: Seq<char>, sigs: Seq<Seq<u8>>|
                parts_encodable(name, sigs) && identification_bytes(encode_utf8(name), sigs)
                    == bytes@
        } else {
            (Seq::empty(), Seq::empty())
        };
        let ghost w_bytes = encode_utf8(w_name);
        proof {
            if complete {
                assert(bytes@.subrange(0, 4) =~= u32_be(w_bytes.len() as u32));
            }
        }
        let name_len = match read_u32(bytes, 0) {
            Some(l) => l,
            None => return None,
        };
        proof {
            if complete {
                lemma_u32_be_injective(name_len, w_bytes.len() as u32);
            }
        }
        if name_len as usize > bytes.len() - 4 {
            return None;
        }
        let end = 4 + name_len as usize;
        let name_bytes = copy_range(bytes, 4, end);
        proof {
            if complete {
                assert(name_bytes@ =~= w_bytes);
                encode_utf8_valid_utf8(w_name);
                assert(bytes@.subrange(end as int, end + 4) =~= u32_be(w_sigs.len() as u32));
            }
        }
        let secret_name = match string_from_utf8(name_bytes) {
            Some(s) => s,
            None => return None,
        };
        let count = match read_u32(bytes, end) {
            Some(c) => c,
            None => return None,
        };
        proof {
            if complete {
                lemma_u32_be_injective(count, w_sigs.len() as u32);
            }
        }
        let base = end + 4;
        let mut signatures: Vec<Vec<u8>> = Vec::new();
        let mut pos: usize = base;
        let mut k: u32 = 0;
        proof {
            assert(bytes@.subrange(base as int, base as int) =~= signatures_bytes(Seq::empty()));
            if complete {
                assert(bytes@.subrange(base as int, bytes@.len() as int) =~= signatures_bytes(w_sigs));
                assert(w_sigs.subrange(0, 0) =~= Seq::<Seq<u8>>::empty());
            }
        }
        while k < count
            invariant
                base <= pos <= bytes@.len(),
                k <= count,
                signatures@.len() == k,
                forall|i: int|
                    0 <= i < signatures@.len() ==> (#[trigger] signatures@[i])@.len() <= u32::MAX,
                bytes@.subrange(base as int, pos as int) == signatures_bytes(
                    views_of(signatures@),
                ),
                complete == is_identification_bytes(bytes@),
                complete ==> count == w_sigs.len(),
                complete ==> bytes@.subrange(base as int, bytes@.len() as int) == signatures_bytes(
                    w_sigs,
                ),
                complete ==> views_of(signatures@) == w_sigs.subrange(0, k as int),
                complete ==> parts_encodable(w_name, w_sigs),
            decreases count - k,
        {
            let ghost views = views_of(signatures@);
            proof {
                if complete {
                    lemma_field_at(bytes@, base as int, pos as int, views, w_sigs);
                }
            }
            let len = match read_u32(bytes, pos) {
                Some(l) => l,
                None => return None,
            };
            proof {
                if complete {
                    lemma_u32_be_injective(len, w_sigs[k as int].len() as u32);
                }
            }
            if len as usize > bytes.len() - (pos + 4) {
                return None;
            }
            let next = pos + 4 + len as usize;
            let sig = copy_range(bytes, pos + 4, next);
            proof {
                if complete {
                    assert(sig@ =~= w_sigs[k as int]);
                }
                assert(bytes@.subrange(pos as int, next as int) =~= field_bytes(sig@));
                assert(bytes@.subrange(base as int, next as int) =~= bytes@.subrange(base as int, pos as int)
                    + bytes@.subrange(pos as int, next as int));
            }
            signatures.push(sig);
            proof {
                let nv = views_of(signatures@);
                assert(nv.drop_last() =~= views);
                assert(nv.last() == sig@);
                if complete {
                    assert(nv =~= w_sigs.subrange(0, k + 1));
                }
            }
            pos = next;
            k = k + 1;
        }
        if pos != bytes.len() {
            proof {
                if complete {
                    assert(views_of(signatures@) =~= w_sigs);
                    assert(bytes@.subrange(base as int, pos as int) == bytes@.subrange(base as int, bytes@.len() as int));
                }
            }
            return None;
        }
        let ident = Identification { secret_name, signatures };
        proof {
            assert(ident.signature_views() =~= views_of(signatures@));
            assert(bytes@ =~= bytes@.subrange(0, 4) + bytes@.subrange(4, end as int) + bytes@.subrange(end as int, base as int) + bytes@.subrange(base as int, pos as int));
            assert(bytes@ =~= identification_bytes(encode_utf8(ident.secret_name@), ident.signature_views()));
        }
        Some(ident)
    }
}

} // verus!

verus! {

/// The bytes under which an identification is logged are always read back:
/// `Identification::from_bytes` succeeds on what `to_bytes` gives.
pub proof fn lemma_logged_identification_reads_back(ident: Identification)
    requires
        ident.encodable(),
    ensures
        is_identification_bytes(
            identification_bytes(encode_utf8(ident.secret_name@), ident.signature_views()),
        ),
{
    let sigs = ident.signature_views();
    assert forall|i: int| 0 <= i < sigs.len() implies (#[trigger] sigs[i]).len() <= u32::MAX by {
        assert(sigs[i] == ident.signatures@[i]@);
    }
    assert(parts_encodable(ident.secret_name@, sigs));
}

} // verus!
