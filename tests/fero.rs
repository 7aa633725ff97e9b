use fero::auth::{AuthError, SignatureCheck, SUMMARY_GREEN, SUMMARY_VALID};
use fero::digest::sha256;
use fero::hex::{parse_hex, ParseHexError};
use fero::log::{
    FeroLogEntry, HsmLogEntry, LogDecodeError, OperationResult, OperationType, Timestamp,
};
use fero::service::{
    lowest_free_object_id, next_reconnect, pkcs1_digest_info, plan_signature, rsa_algorithm,
    status_of, threshold_payload, weight_payload, Identification, KeyImportError, RsaAlgorithm,
    ServiceError, SignatureType, SigningPlan, StatusCode,
};
use fero::store::{LogAppendError, Configuration, StoreError};

fn hex(bytes: &[u8]) -> String {
    bytes.iter().map(|b| format!("{:02x}", b)).collect()
}

fn device_entry(index: u16) -> HsmLogEntry {
    HsmLogEntry {
        hsm_index: index,
        command: 0x47,
        data_length: 0x0102,
        session_key: 3,
        target_key: 0x0a0b,
        second_key: 0xffff,
        result: 0xc7,
        systick: 0x01020304,
        hash: (0..16).map(|i| i as u8 + index as u8).collect(),
    }
}

fn good(key_id: &str) -> SignatureCheck {
    SignatureCheck { summary: 0, signer_key_id: Some(key_id.to_string()) }
}

fn ident(name: &str) -> Identification {
    Identification { secret_name: name.to_string(), signatures: vec![vec![1, 2, 3]] }
}

fn set_weight(store: &mut Configuration, user: u64, name: &String, weight: i32) -> Result<(), ServiceError> {
    store.set_user_weight(user, name, weight, Timestamp { seconds: 0, nanos: 0 }, vec![]).0
}

/// A store with one secret "demo" and users 0xaa, 0xbb, 0xcc of weight 1.
fn demo_store(threshold: i32) -> Configuration {
    let mut store = Configuration::new();
    store.insert_secret_key(1, Some(0x1234), "demo", threshold).unwrap();
    for id in [0xaau64, 0xbb, 0xcc] {
        store.insert_user_key(id, &[id as u8]).unwrap();
        set_weight(&mut store, id, &"demo".to_string(), 1).unwrap();
    }
    store
}

#[test]
fn hsm_log_entry_bytes_are_big_endian() {
    let e = device_entry(0x0105);
    let b = e.to_bytes();
    assert_eq!(b.len(), 32);
    assert_eq!(
        &b[..16],
        &[0x01, 0x05, 0x47, 0x01, 0x02, 0x00, 0x03, 0x0a, 0x0b, 0xff, 0xff, 0xc7, 1, 2, 3, 4]
    );
    assert_eq!(&b[16..], &e.hash[..]);
}

#[test]
fn hsm_log_entry_round_trip() {
    let e = device_entry(42);
    let back = HsmLogEntry::from_bytes(e.to_bytes()).unwrap();
    assert_eq!(back.hsm_index, 42);
    assert_eq!(back.command, e.command);
    assert_eq!(back.data_length, e.data_length);
    assert_eq!(back.session_key, e.session_key);
    assert_eq!(back.target_key, e.target_key);
    assert_eq!(back.second_key, e.second_key);
    assert_eq!(back.result, e.result);
    assert_eq!(back.systick, e.systick);
    assert_eq!(back.hash, e.hash);
}

#[test]
fn hsm_log_entry_truncated() {
    let b = device_entry(1).to_bytes();
    assert_eq!(HsmLogEntry::from_bytes(b[..31].to_vec()).unwrap_err(), LogDecodeError::Truncated);
    assert!(HsmLogEntry::from_bytes(vec![]).is_err());
}

#[test]
fn sha256_known_values() {
    assert_eq!(
        hex(&sha256(b"")),
        "e3b0c44298fc1c149afbf4c8996fb92427ae41e4649b934ca495991b7852b855"
    );
    assert_eq!(
        hex(&sha256(b"abc")),
        "ba7816bf8f01cfea414140de5dae2223b00361a396177a9cb410ff61f20015ad"
    );
}

#[test]
fn fero_log_hash_covers_contents_and_parent() {
    let entry = FeroLogEntry {
        request_type: OperationType::Weight,
        timestamp: Timestamp { seconds: 0x0102030405060708, nanos: 99 },
        result: OperationResult::Failure,
        hsm_logs: vec![device_entry(7)],
        identification: Some(vec![9, 9]),
        hash: vec![],
    };
    let parent = [0xeeu8; 32];
    let mut pre = vec![2u8, 1, 2, 3, 4, 5, 6, 7, 8, 1];
    pre.extend(device_entry(7).to_bytes());
    pre.extend([9, 9]);
    pre.extend(parent);
    assert_eq!(entry.hash(&parent), sha256(&pre));
    let mut other = entry.clone();
    other.timestamp.nanos = 5;
    assert_eq!(other.hash(&parent), entry.hash(&parent));
    assert_ne!(entry.hash(&[0u8; 32]), entry.hash(&parent));
}

#[test]
fn threshold_and_weight_payloads() {
    assert_eq!(threshold_payload("demo", 1), b"demo\x00\x00\x00\x01".to_vec());
    assert_eq!(threshold_payload("x", -1), b"x\xff\xff\xff\xff".to_vec());
    assert_eq!(
        weight_payload("demo", 0x0102030405060708, 2),
        b"demo\x01\x02\x03\x04\x05\x06\x07\x08\x00\x00\x00\x02".to_vec()
    );
}

#[test]
fn parse_hex_with_and_without_prefix() {
    assert_eq!(parse_hex("0x1f"), Ok(31));
    assert_eq!(parse_hex("1F"), Ok(31));
    assert_eq!(parse_hex("ffffffffffffffff"), Ok(u64::MAX));
    assert_eq!(parse_hex("10000000000000000"), Err(ParseHexError));
    assert_eq!(parse_hex("0x"), Err(ParseHexError));
    assert_eq!(parse_hex("zz"), Err(ParseHexError));
    assert_eq!(parse_hex(""), Err(ParseHexError));
}

#[test]
fn sign_with_one_signer_meeting_threshold() {
    let store = demo_store(1);
    let conn = store.authenticate(&"demo".to_string(), &[good("aa")]).unwrap();
    assert_eq!(conn.get_pgp_key_id(), Some(0x1234));
    assert_eq!(conn.get_hsm_key_id(), 1);
    let plan = store.authorize_sign(&ident("demo"), &[good("aa")], SignatureType::Pgp).unwrap();
    assert_eq!(plan, SigningPlan { hsm_key: 1, pgp_key_id: Some(0x1234) });
}

#[test]
fn signature_over_other_payload_is_skipped() {
    let store = demo_store(1);
    let red = SignatureCheck { summary: 0x4, signer_key_id: Some("aa".to_string()) };
    assert_eq!(
        store.authenticate(&"demo".to_string(), &[red]).unwrap_err(),
        AuthError::InsufficientWeight
    );
    let both = SignatureCheck { summary: SUMMARY_VALID | SUMMARY_GREEN, signer_key_id: Some("aa".to_string()) };
    assert!(store.authenticate(&"demo".to_string(), &[both]).is_err());
    let green = SignatureCheck { summary: SUMMARY_GREEN, signer_key_id: Some("aa".to_string()) };
    assert!(store.authenticate(&"demo".to_string(), &[green]).is_ok());
}

#[test]
fn two_of_three_below_threshold_three() {
    let store = demo_store(3);
    let r = store.authorize_sign(&ident("demo"), &[good("aa"), good("bb")], SignatureType::Pgp);
    assert_eq!(r, Err(ServiceError::Auth(AuthError::InsufficientWeight)));
    assert_eq!(status_of(r.unwrap_err()), StatusCode::PermissionDenied);
    assert!(store.authenticate(&"demo".to_string(), &[good("aa"), good("bb"), good("cc")]).is_ok());
}

#[test]
fn duplicate_signer_counts_once() {
    let mut store = demo_store(2);
    set_weight(&mut store, 0xaa, &"demo".to_string(), 2).unwrap();
    assert!(store.authenticate(&"demo".to_string(), &[good("aa"), good("aa")]).is_ok());
    set_weight(&mut store, 0xaa, &"demo".to_string(), 1).unwrap();
    assert_eq!(
        store.authenticate(&"demo".to_string(), &[good("aa"), good("AA")]).unwrap_err(),
        AuthError::InsufficientWeight
    );
}

#[test]
fn zero_threshold_admits_unsigned_request() {
    let store = demo_store(0);
    assert!(store.authenticate(&"demo".to_string(), &[]).is_ok());
    assert!(store.authenticate(&"demo".to_string(), &[good("dd")]).is_ok());
}

#[test]
fn unknown_and_unweighted_signers_count_zero() {
    let mut store = demo_store(1);
    store.insert_user_key(0xdd, &[0xdd]).unwrap();
    assert!(store.authenticate(&"demo".to_string(), &[good("ee")]).is_err());
    assert!(store.authenticate(&"demo".to_string(), &[good("dd")]).is_err());
    let unkeyed = SignatureCheck { summary: 0, signer_key_id: None };
    assert!(store.authenticate(&"demo".to_string(), &[unkeyed]).is_err());
}

#[test]
fn negative_weight_subtracts() {
    let mut store = demo_store(1);
    set_weight(&mut store, 0xbb, &"demo".to_string(), -1).unwrap();
    assert!(store.authenticate(&"demo".to_string(), &[good("aa"), good("bb")]).is_err());
    assert!(store.authenticate(&"demo".to_string(), &[good("aa"), good("cc")]).is_ok());
}

#[test]
fn authenticate_errors() {
    let store = demo_store(1);
    assert_eq!(
        store.authenticate(&"nope".to_string(), &[good("aa")]).unwrap_err(),
        AuthError::UnknownSecret
    );
    assert_eq!(
        store.authenticate(&"demo".to_string(), &[good("xyz")]).unwrap_err(),
        AuthError::BadKeyId
    );
}

#[test]
fn applicable_keys_are_weighted_users() {
    let mut store = demo_store(1);
    store.insert_user_key(0xdd, &[0xdd]).unwrap();
    let keys = store.applicable_user_keys(&"demo".to_string()).unwrap();
    assert_eq!(keys, vec![vec![0xaa], vec![0xbb], vec![0xcc]]);
    assert_eq!(store.applicable_user_keys(&"x".to_string()), Err(AuthError::UnknownSecret));
}

#[test]
fn store_unique_constraints() {
    let mut store = Configuration::new();
    assert!(store.insert_secret_key(1, None, "a", 0).is_ok());
    assert_eq!(store.insert_secret_key(2, None, "a", 0), Err(StoreError::DuplicateSecret));
    assert_eq!(store.insert_secret_key(1, None, "b", 0), Err(StoreError::DuplicateSecret));
    assert_eq!(store.secrets[0].id, 1);
    assert!(store.insert_user_key(5, b"k").is_ok());
    assert_eq!(store.insert_user_key(5, b"k"), Err(StoreError::DuplicateUser));
    assert_eq!(store.get_user_key(5).unwrap().key_data, b"k".to_vec());
    assert!(store.get_user_key(6).is_none());
}

#[test]
fn weight_upsert_updates_in_place() {
    let mut store = demo_store(1);
    assert_eq!(store.weights.len(), 3);
    set_weight(&mut store, 0xaa, &"demo".to_string(), 7).unwrap();
    assert_eq!(store.weights.len(), 3);
    assert_eq!(store.weights[0].weight, 7);
    assert_eq!(
        set_weight(&mut store, 0xee, &"demo".to_string(), 1),
        Err(ServiceError::UnknownUser)
    );
    assert_eq!(
        set_weight(&mut store, 0xaa, &"other".to_string(), 1),
        Err(ServiceError::Store(StoreError::UnknownSecret))
    );
}

#[test]
fn threshold_request_sets_and_logs() {
    let mut store = demo_store(1);
    let (op, log) = store.handle_threshold(
        &ident("demo"),
        &[good("aa")],
        2,
        Timestamp { seconds: 10, nanos: 0 },
        vec![device_entry(1), device_entry(2)],
    );
    assert_eq!(op, Ok(()));
    assert_eq!(log, Ok(2));
    assert_eq!(store.secrets[0].threshold, 2);
    let n = store.fero_logs.len();
    assert_eq!(store.fero_logs[n - 1].result, OperationResult::Success);
    assert_eq!(store.fero_logs[n - 1].hsm_index_end, 2);
    let (op, log) = store.handle_threshold(
        &ident("demo"),
        &[good("aa")],
        5,
        Timestamp { seconds: 11, nanos: 0 },
        vec![],
    );
    assert_eq!(op, Err(ServiceError::Auth(AuthError::InsufficientWeight)));
    assert_eq!(log, Ok(2));
    assert_eq!(store.secrets[0].threshold, 2);
    assert_eq!(store.fero_logs.len(), n + 1);
    assert_eq!(store.fero_logs[n].result, OperationResult::Failure);
    assert_eq!(store.fero_logs[n].request_type, OperationType::Threshold);
}

#[test]
fn negative_threshold_is_invalid() {
    let mut store = demo_store(0);
    let (op, _) = store.handle_threshold(&ident("demo"), &[], -1, Timestamp { seconds: 1, nanos: 0 }, vec![]);
    assert_eq!(op, Err(ServiceError::InvalidThreshold));
    assert_eq!(status_of(ServiceError::InvalidThreshold), StatusCode::InvalidArgument);
    assert_eq!(status_of(ServiceError::Store(StoreError::Full)), StatusCode::Aborted);
}

#[test]
fn weight_request_sets_and_logs() {
    let mut store = demo_store(1);
    store.insert_user_key(0xdd, &[0xdd]).unwrap();
    let (op, log) = store.handle_weight(
        &ident("demo"),
        &[good("aa")],
        0xdd,
        3,
        Timestamp { seconds: 1, nanos: 0 },
        vec![],
    );
    assert_eq!(op, Ok(()));
    assert_eq!(log, Ok(0));
    assert_eq!(store.weights[3].weight, 3);
    let (op, _) = store.handle_weight(&ident("demo"), &[good("aa")], 0xee, 3, Timestamp { seconds: 2, nanos: 0 }, vec![]);
    assert_eq!(op, Err(ServiceError::UnknownUser));
    assert_eq!(store.fero_logs[store.fero_logs.len() - 1].result, OperationResult::Failure);
}

#[test]
fn pgp_signature_needs_pgp_secret() {
    let mut store = demo_store(0);
    store.insert_secret_key(2, None, "pem", 0).unwrap();
    assert_eq!(
        store.authorize_sign(&ident("pem"), &[], SignatureType::Pgp),
        Err(ServiceError::NotPgpKey)
    );
    assert_eq!(
        store.authorize_sign(&ident("pem"), &[], SignatureType::Pkcs1v15),
        Ok(SigningPlan { hsm_key: 2, pgp_key_id: None })
    );
    let conn = store.authenticate(&"demo".to_string(), &[]).unwrap();
    assert_eq!(
        plan_signature(&conn, SignatureType::Pkcs1v15),
        Ok(SigningPlan { hsm_key: 1, pgp_key_id: None })
    );
}

#[test]
fn first_append_writes_root_then_chain_verifies() {
    let mut store = Configuration::new();
    let r = store.append_operation(
        OperationType::AddSecret,
        OperationResult::Success,
        None,
        Timestamp { seconds: 5, nanos: 1 },
        vec![device_entry(1), device_entry(2), device_entry(3)],
    );
    assert_eq!(r, Ok(3));
    assert_eq!(store.fero_logs.len(), 2);
    assert_eq!(store.fero_logs[0].id, 1);
    assert_eq!(store.fero_logs[0].hash.len(), 32);
    assert_eq!(store.fero_logs[0].hsm_index_end, 0);
    assert_eq!(store.fero_logs[1].id, 2);
    assert_eq!(store.fero_logs[1].hsm_index_start, 0);
    assert_eq!(store.fero_logs[1].hsm_index_end, 3);
    let logs = store.get_logs(0);
    assert_eq!(logs.len(), 2);
    assert_eq!(logs[0].id, 1);
    assert_eq!(logs[1].entry.hsm_logs.len(), 3);
    let entries: Vec<FeroLogEntry> = logs.into_iter().map(|l| l.entry).collect();
    assert_eq!(FeroLogEntry::verify(&entries), Ok(()));
}

#[test]
fn tampered_hash_fails_at_its_entry() {
    let mut store = Configuration::new();
    for i in 0..5u16 {
        let r = store.append_operation(
            OperationType::Sign,
            OperationResult::Success,
            Some(vec![i as u8]),
            Timestamp { seconds: i as i64, nanos: 0 },
            vec![device_entry(2 * i + 1), device_entry(2 * i + 2)],
        );
        assert_eq!(r, Ok(2 * i + 2));
    }
    let mut entries: Vec<FeroLogEntry> = store.get_logs(0).into_iter().map(|l| l.entry).collect();
    assert_eq!(entries.len(), 6);
    assert_eq!(FeroLogEntry::verify(&entries), Ok(()));
    assert_eq!(entries[3].hsm_logs.len(), 2);
    assert_eq!(entries[3].hsm_logs[0].hsm_index, 5);
    entries[3].hash[0] ^= 1;
    assert_eq!(FeroLogEntry::verify(&entries), Err(3));
    let since = store.get_logs(3);
    assert_eq!(since.len(), 3);
    assert_eq!(since[0].id, 4);
    assert!(store.get_logs(100).is_empty());
}

#[test]
fn device_index_must_advance() {
    let mut store = Configuration::new();
    store
        .append_operation(OperationType::AddUser, OperationResult::Success, None, Timestamp { seconds: 0, nanos: 0 }, vec![device_entry(4)])
        .unwrap();
    let r = store.append_operation(
        OperationType::AddUser,
        OperationResult::Success,
        None,
        Timestamp { seconds: 0, nanos: 0 },
        vec![device_entry(4)],
    );
    assert_eq!(r, Err(LogAppendError::IndexNotAdvancing));
    let r = store.append_operation(
        OperationType::AddUser,
        OperationResult::Success,
        None,
        Timestamp { seconds: 0, nanos: 0 },
        vec![device_entry(6), device_entry(5)],
    );
    assert_eq!(r, Err(LogAppendError::IndexNotAdvancing));
    assert_eq!(store.fero_logs.len(), 2);
    assert_eq!(store.last_hsm_index(), 4);
}

#[test]
fn pkcs1_digest_info_for_sha256() {
    let info = pkcs1_digest_info(b"abc");
    assert_eq!(
        hex(&info),
        "3031300d060960864801650304020105000420\
         ba7816bf8f01cfea414140de5dae2223b00361a396177a9cb410ff61f20015ad"
    );
}

#[test]
fn rsa_key_sizes() {
    assert_eq!(rsa_algorithm(2048), Ok(RsaAlgorithm::Rsa2048));
    assert_eq!(rsa_algorithm(4096), Ok(RsaAlgorithm::Rsa4096));
    assert_eq!(rsa_algorithm(1024), Err(KeyImportError::Rsa1024Unsupported));
    assert_eq!(rsa_algorithm(3072), Err(KeyImportError::UnknownKeySize(3072)));
}

#[test]
fn lowest_free_object_id_skips_used() {
    assert_eq!(lowest_free_object_id(&[]), Ok(1));
    assert_eq!(lowest_free_object_id(&[1, 2, 4]), Ok(3));
    assert_eq!(lowest_free_object_id(&[2, 3]), Ok(1));
    let all: Vec<u16> = (1..=u16::MAX).collect();
    assert_eq!(lowest_free_object_id(&all), Err(KeyImportError::NoFreeObjectId));
}

#[test]
fn reconnect_backoff_doubles_then_gives_up() {
    assert_eq!(next_reconnect(0, 15), Some((15, 30)));
    assert_eq!(next_reconnect(5000, 30), Some((30, 60)));
    assert_eq!(next_reconnect(5001, 60), None);
    assert_eq!(next_reconnect(0, u64::MAX), Some((u64::MAX, u64::MAX)));
}

#[test]
fn identification_bytes_are_length_prefixed() {
    let id = Identification { secret_name: "ab".to_string(), signatures: vec![vec![7], vec![]] };
    assert_eq!(id.to_bytes(), vec![0, 0, 0, 2, b'a', b'b', 0, 0, 0, 2, 0, 0, 0, 1, 7, 0, 0, 0, 0]);
}

use fero::import::{rsa_key_from_pem, PemImportError};

fn rsa_der(n: &[u8], p: &[u8], q: &[u8]) -> Vec<u8> {
    yasna::construct_der(|w| {
        w.write_sequence(|seq| {
            seq.next().write_u8(0);
            seq.next().write_bigint_bytes(n, true);
            seq.next().write_bigint_bytes(&[1, 0, 1], true);
            seq.next().write_bigint_bytes(&[5], true);
            seq.next().write_bigint_bytes(p, true);
            seq.next().write_bigint_bytes(q, true);
            seq.next().write_bigint_bytes(&[6], true);
            seq.next().write_bigint_bytes(&[7], true);
            seq.next().write_bigint_bytes(&[8], true);
        })
    })
}

fn pem_text(tag: &str, contents: Vec<u8>) -> Vec<u8> {
    pem::encode(&pem::Pem { tag: tag.to_string(), contents }).into_bytes()
}

fn modulus(bits: usize) -> Vec<u8> {
    let mut n = vec![0x80u8];
    n.extend(vec![0x11u8; bits / 8 - 1]);
    n
}

#[test]
fn pem_rsa_key_2048_and_4096() {
    let n = modulus(2048);
    let key = rsa_key_from_pem(&pem_text("RSA PRIVATE KEY", rsa_der(&n, &[0x0b], &[0x0d]))).unwrap();
    assert_eq!(key.n, n);
    assert_eq!(key.p, vec![0x0b]);
    assert_eq!(key.q, vec![0x0d]);
    assert_eq!(key.algorithm, RsaAlgorithm::Rsa2048);
    let key = rsa_key_from_pem(&pem_text("RSA PRIVATE KEY", rsa_der(&modulus(4096), &[3], &[5]))).unwrap();
    assert_eq!(key.algorithm, RsaAlgorithm::Rsa4096);
}

#[test]
fn pem_rsa_key_refusals() {
    let der = rsa_der(&modulus(1024), &[3], &[5]);
    assert_eq!(
        rsa_key_from_pem(&pem_text("RSA PRIVATE KEY", der.clone())).unwrap_err(),
        PemImportError::Key(KeyImportError::Rsa1024Unsupported)
    );
    let mut small = vec![0x7fu8];
    small.extend(vec![0u8; 255]);
    assert_eq!(
        rsa_key_from_pem(&pem_text("RSA PRIVATE KEY", rsa_der(&small, &[3], &[5]))).unwrap_err(),
        PemImportError::Key(KeyImportError::UnknownKeySize(2047))
    );
    assert_eq!(
        rsa_key_from_pem(&pem_text("PRIVATE KEY", der)).unwrap_err(),
        PemImportError::NotRsaPrivateKey
    );
    assert_eq!(
        rsa_key_from_pem(&pem_text("RSA PRIVATE KEY", vec![1, 2, 3])).unwrap_err(),
        PemImportError::BadKey
    );
    assert_eq!(rsa_key_from_pem(b"not a pem").unwrap_err(), PemImportError::BadPem);
}

#[test]
fn store_key_records_secret() {
    let mut store = Configuration::new();
    store.store_key(7, Some(0xfeed), "imported", 2).unwrap();
    assert_eq!(store.secrets[0].hsm_id, 7);
    assert_eq!(store.secrets[0].key_id, Some(0xfeed));
    assert_eq!(store.store_key(7, None, "other", 2), Err(StoreError::DuplicateSecret));
}

use fero::pgp::{
    find_keyid, find_secret_subkey, key_packets, u64_of_be8, pgp_secret_key, rsa_parts, PgpPacket,
    same_number_exec, select_secret_subkey, KeyKind, KeyMaterialKind, PgpKey, PgpKeyError,
};

fn mpi(x: &[u8]) -> Vec<u8> {
    let bits = (x.len() as u16 - 1) * 8 + (8 - x[0].leading_zeros() as u16);
    let mut out = bits.to_be_bytes().to_vec();
    out.extend_from_slice(x);
    out
}

/// The packets of a packet stream as plain values.
fn packets(bytes: &[u8]) -> Vec<PgpPacket> {
    pretty_good::Packet::all_from_bytes(bytes)
        .unwrap()
        .into_iter()
        .map(|packet| {
            let (kind, key) = match packet {
                pretty_good::Packet::PublicKey(k) => (KeyKind::PublicKey, k),
                pretty_good::Packet::PublicSubkey(k) => (KeyKind::PublicSubkey, k),
                pretty_good::Packet::SecretKey(k) => (KeyKind::SecretKey, k),
                pretty_good::Packet::SecretSubkey(k) => (KeyKind::SecretSubkey, k),
                _ => return PgpPacket::Other,
            };
            let material = match &key.key_material {
                pretty_good::KeyMaterial::Rsa(public, private) => KeyMaterialKind::Rsa {
                    n: public.n.to_bytes_be(),
                    primes: private.as_ref().map(|s| (s.p.to_bytes_be(), s.q.to_bytes_be())),
                },
                pretty_good::KeyMaterial::Dsa(..) => KeyMaterialKind::Dsa,
                pretty_good::KeyMaterial::Elgamal(..) => KeyMaterialKind::Elgamal,
            };
            PgpPacket::Key(PgpKey { kind, fingerprint: key.fingerprint().ok(), material })
        })
        .collect()
}

/// An unencrypted version-4 RSA secret key packet.
fn secret_key_packet(n: &[u8], p: &[u8], q: &[u8]) -> Vec<u8> {
    let mut body = vec![4u8, 0x5a, 0, 0, 0, 1];
    body.extend(mpi(n));
    body.extend(mpi(&[1, 0, 1]));
    body.push(0);
    body.extend(mpi(&[3]));
    body.extend(mpi(p));
    body.extend(mpi(q));
    body.extend(mpi(&[9]));
    body.extend([0, 0]);
    let mut packet = vec![0x95u8];
    packet.extend((body.len() as u16).to_be_bytes());
    packet.extend(body);
    packet
}

#[test]
fn pgp_secret_key_found_by_fingerprint() {
    let n = modulus(2048);
    let bytes = secret_key_packet(&n, &[0x0b], &[0x0d]);
    let keys = key_packets(packets(&bytes));
    assert_eq!(keys.len(), 1);
    assert_eq!(keys[0].kind, KeyKind::SecretKey);
    let fp = keys[0].fingerprint.clone().unwrap();
    assert_eq!(fp.len(), 20);
    let (parts, id) = pgp_secret_key(packets(&bytes), &fp).unwrap();
    assert_eq!(parts.n, n);
    assert_eq!(parts.p, vec![0x0b]);
    assert_eq!(parts.q, vec![0x0d]);
    assert_eq!(parts.algorithm, RsaAlgorithm::Rsa2048);
    let mut low = [0u8; 8];
    low.copy_from_slice(&fp[12..]);
    assert_eq!(id, u64::from_be_bytes(low));
    assert_eq!(find_keyid(packets(&bytes)), Ok(id));
    let mut padded = vec![0u8, 0];
    padded.extend(&fp);
    assert!(find_secret_subkey(packets(&bytes), &padded).is_ok());
}

#[test]
fn pgp_secret_key_refusals() {
    let bytes = secret_key_packet(&modulus(2048), &[3], &[5]);
    assert_eq!(find_secret_subkey(packets(&bytes), &[1, 2, 3]).unwrap_err(), PgpKeyError::SubkeyNotFound);
    let fp = key_packets(packets(&bytes))[0].fingerprint.clone().unwrap();
    let mut twice = bytes.clone();
    twice.extend(&bytes);
    assert_eq!(find_secret_subkey(packets(&twice), &fp).unwrap_err(), PgpKeyError::DuplicateSubkey);
    let small = secret_key_packet(&modulus(1024), &[3], &[5]);
    let fp = key_packets(packets(&small))[0].fingerprint.clone().unwrap();
    assert_eq!(
        pgp_secret_key(packets(&small), &fp).unwrap_err(),
        PgpKeyError::Key(KeyImportError::Rsa1024Unsupported)
    );
    assert_eq!(find_keyid(vec![]), Err(PgpKeyError::NoKey));
}

#[test]
fn subkey_selection_and_key_ids() {
    let key = |kind, fp: Vec<u8>| PgpKey {
        kind,
        fingerprint: Some(fp),
        material: KeyMaterialKind::Dsa,
    };
    let keys = vec![
        key(KeyKind::PublicKey, vec![1, 2]),
        key(KeyKind::SecretSubkey, vec![0, 1, 2]),
        key(KeyKind::SecretKey, vec![3]),
    ];
    assert_eq!(select_secret_subkey(&keys, &[1, 2]), Ok(1));
    assert_eq!(select_secret_subkey(&keys, &[3]), Ok(2));
    assert_eq!(select_secret_subkey(&keys, &[4]), Err(PgpKeyError::SubkeyNotFound));
    assert!(same_number_exec(&[0, 0, 5], &[5]));
    assert!(!same_number_exec(&[5, 0], &[5]));
    let fp: Vec<u8> = (1..=20).collect();
    assert_eq!(u64_of_be8(&fp, 12), 0x0d0e0f1011121314);
    assert_eq!(rsa_parts(KeyMaterialKind::Elgamal).unwrap_err(), PgpKeyError::NotRsa);
    assert_eq!(
        rsa_parts(KeyMaterialKind::Rsa { n: modulus(4096), primes: None }).unwrap_err(),
        PgpKeyError::NoPrivateKey
    );
    assert_eq!(
        rsa_parts(KeyMaterialKind::Rsa { n: modulus(4096), primes: Some((vec![3], vec![5])) })
            .unwrap()
            .algorithm,
        RsaAlgorithm::Rsa4096
    );
}

use fero::signing::{begin_pgp_signature, finish_pgp_signature};

#[test]
fn pgp_signature_packet_around_device_signature() {
    let pending = begin_pgp_signature(b"Test payload. This should be signed successfully.").unwrap();
    assert_eq!(pending.digest_info.len(), 51);
    assert_eq!(hex(&pending.digest_info[..19]), "3031300d060960864801650304020105000420");
    assert_eq!(&pending.digest_info[19..], &pending.digest[..]);
    assert!(pending.created > 1_500_000_000);
    let bytes = finish_pgp_signature(pending, &[0x01, 0x02, 0x03], 0x1234);
    match pretty_good::Packet::from_bytes(&bytes).unwrap().0 {
        pretty_good::Packet::Signature(sig) => assert_eq!(sig.signer(), Some(0x1234)),
        _ => panic!("not a signature packet"),
    }
}

#[test]
fn identification_bytes_read_back() {
    let id = Identification {
        secret_name: "démo".to_string(),
        signatures: vec![vec![7, 8, 9], vec![], vec![1]],
    };
    let bytes = id.to_bytes();
    let back = Identification::from_bytes(&bytes).unwrap();
    assert_eq!(back.secret_name, "démo");
    assert_eq!(back.signatures, id.signatures);
    let mut longer = bytes.clone();
    longer.push(0);
    assert!(Identification::from_bytes(&longer).is_none());
    assert!(Identification::from_bytes(&bytes[..bytes.len() - 1]).is_none());
    assert!(Identification::from_bytes(&[0, 0, 0, 1, 0xff, 0, 0, 0, 0]).is_none());
    let empty = Identification::from_bytes(&[0, 0, 0, 0, 0, 0, 0, 0]).unwrap();
    assert_eq!(empty.secret_name, "");
    assert!(empty.signatures.is_empty());
}

use fero::provision::{
    app_authkey_capabilities, app_authkey_delegated_capabilities, provision_step, Capability,
    DeviceOutcome, ProvisionAction, ProvisionState,
};

#[test]
fn provisioning_runs_in_order_and_tolerates_reset_disconnect() {
    let (s, a) = provision_step(ProvisionState::Resetting, DeviceOutcome::NetError, 0);
    assert_eq!(s, ProvisionState::Reconnecting { backoff_ms: 15 });
    assert_eq!(a, ProvisionAction::Connect);
    let (s, a) = provision_step(s, DeviceOutcome::NetError, 10);
    assert_eq!(s, ProvisionState::Reconnecting { backoff_ms: 30 });
    assert_eq!(a, ProvisionAction::RetryConnectAfter(15));
    let (s, a) = provision_step(s, DeviceOutcome::Success, 40);
    assert_eq!((s, a), (ProvisionState::CreatingAdminKey, ProvisionAction::CreateAdminKey));
    let (s, a) = provision_step(s, DeviceOutcome::Success, 0);
    assert_eq!((s, a), (ProvisionState::CreatingAppKey, ProvisionAction::CreateAppKey));
    let (s, a) = provision_step(s, DeviceOutcome::Success, 0);
    assert_eq!((s, a), (ProvisionState::DeletingDefaultKey, ProvisionAction::DeleteDefaultKey));
    let (s, a) = provision_step(s, DeviceOutcome::Success, 0);
    assert_eq!((s, a), (ProvisionState::Done, ProvisionAction::Stop));
}

#[test]
fn provisioning_failures_stop() {
    assert_eq!(
        provision_step(ProvisionState::Resetting, DeviceOutcome::Failure(3), 0),
        (ProvisionState::Failed, ProvisionAction::Stop)
    );
    assert_eq!(
        provision_step(ProvisionState::Reconnecting { backoff_ms: 960 }, DeviceOutcome::NetError, 5001),
        (ProvisionState::Failed, ProvisionAction::Stop)
    );
    assert_eq!(
        provision_step(ProvisionState::CreatingAdminKey, DeviceOutcome::NetError, 0),
        (ProvisionState::Failed, ProvisionAction::Stop)
    );
    assert_eq!(
        app_authkey_capabilities(),
        vec![
            Capability::PutAsymmetric,
            Capability::GetOption,
            Capability::PutOption,
            Capability::Audit,
            Capability::AsymmetricSignPkcs
        ]
    );
    assert_eq!(app_authkey_delegated_capabilities(), vec![Capability::AsymmetricSignPkcs]);
}

use fero::command::CommandType;

#[test]
fn device_commands_and_success() {
    assert_eq!(CommandType::from_byte(0x47), CommandType::SignPkcs1);
    assert_eq!(CommandType::from_byte(0xc7), CommandType::SignPkcs1);
    assert_eq!(CommandType::from_byte(0x67), CommandType::SetLogIndex);
    assert_eq!(CommandType::from_byte(0x02), CommandType::Unknown);
    assert_eq!(CommandType::from_byte(0xff), CommandType::Error);
    let mut e = device_entry(1);
    assert!(e.succeeded());
    e.result = 0x7f;
    assert!(!e.succeeded());
}

#[test]
fn pgp_packet_errors() {
    assert!(pretty_good::Packet::all_from_bytes(&[0x00]).is_err());
    assert_eq!(key_packets(vec![PgpPacket::Other]).len(), 0);
    let v3 = |n: &[u8]| {
        let mut body = vec![3u8, 0, 0, 0, 0, 0, 0, 1];
        body.extend(mpi(n));
        body.extend(mpi(&[1, 0, 1]));
        let mut packet = vec![0x99u8];
        packet.extend((body.len() as u16).to_be_bytes());
        packet.extend(body);
        packet
    };
    let mut n = modulus(2048);
    let len = n.len();
    n[len - 8..].copy_from_slice(&[1, 2, 3, 4, 5, 6, 7, 8]);
    let packet = v3(&n);
    let keys = key_packets(packets(&packet));
    assert_eq!(keys[0].kind, KeyKind::PublicKey);
    assert_eq!(keys[0].fingerprint.as_ref().unwrap().len(), 16);
    assert_eq!(find_keyid(packets(&packet)), Ok(0x0102030405060708));
    assert_eq!(find_keyid(packets(&v3(&[0x80, 1, 2, 3]))), Err(PgpKeyError::ShortModulus));
}

#[test]
fn admin_operations_are_logged() {
    let mut store = Configuration::new();
    let t = Timestamp { seconds: 3, nanos: 0 };
    let (r, log) = store.import_secret(4, Some(0xbeef), "s", 1, t, vec![device_entry(1)]);
    assert_eq!((r, log), (Ok(()), Ok(1)));
    assert_eq!(store.fero_logs.len(), 2);
    assert_eq!(store.fero_logs[1].request_type, OperationType::AddSecret);
    let (r, _) = store.import_secret(4, None, "t", 1, t, vec![]);
    assert_eq!(r, Err(StoreError::DuplicateSecret));
    assert_eq!(store.fero_logs[2].result, OperationResult::Failure);
    let (r, _) = store.store_user(0xaa, b"key", t, vec![]);
    assert_eq!(r, Ok(()));
    assert_eq!(store.fero_logs[3].request_type, OperationType::AddUser);
    let (r, _) = store.store_user(0xaa, b"key", t, vec![]);
    assert_eq!(r, Err(StoreError::DuplicateUser));
    assert_eq!(store.fero_logs[4].result, OperationResult::Failure);
    let (r, log) = store.set_user_weight(0xaa, &"s".to_string(), 2, t, vec![]);
    assert_eq!((r, log), (Ok(()), Ok(1)));
    assert_eq!(store.fero_logs[5].request_type, OperationType::Weight);
    assert_eq!(store.fero_logs[5].identification, None);
    let entries: Vec<FeroLogEntry> = store.get_logs(0).into_iter().map(|l| l.entry).collect();
    assert_eq!(FeroLogEntry::verify(&entries), Ok(()));
}

#[test]
fn sign_requests_are_logged() {
    let mut store = demo_store(1);
    let id = ident("demo");
    let plan = store.authorize_sign(&id, &[good("zz")], SignatureType::Pgp);
    assert_eq!(plan, Err(ServiceError::Auth(AuthError::BadKeyId)));
    let failed: Result<Vec<u8>, ServiceError> = Err(ServiceError::Auth(AuthError::BadKeyId));
    assert_eq!(store.log_sign(&id, &failed, Timestamp { seconds: 9, nanos: 0 }, vec![]), Ok(0));
    let last = store.fero_logs.len() - 1;
    assert_eq!(store.fero_logs[last].request_type, OperationType::Sign);
    assert_eq!(store.fero_logs[last].result, OperationResult::Failure);
    assert_eq!(store.fero_logs[last].identification, Some(id.to_bytes()));
    let signed: Result<Vec<u8>, ServiceError> = Ok(vec![1]);
    assert_eq!(
        store.log_sign(&id, &signed, Timestamp { seconds: 10, nanos: 0 }, vec![device_entry(1)]),
        Ok(1)
    );
    assert_eq!(store.fero_logs[last + 1].result, OperationResult::Success);
    assert_eq!(store.fero_logs[last + 1].hash.len(), 32);
}

#[test]
fn parse_hex_sign_rules() {
    assert_eq!(parse_hex("+1f"), Ok(31));
    assert_eq!(parse_hex("0x+1f"), Ok(31));
    assert_eq!(parse_hex("+"), Err(ParseHexError));
    assert_eq!(parse_hex("-1"), Err(ParseHexError));
    assert_eq!(parse_hex("1 "), Err(ParseHexError));
    assert_eq!(parse_hex("00000000000000000001"), Ok(1));
}

#[test]
fn secrets_need_a_name_and_a_threshold() {
    let mut store = Configuration::new();
    assert_eq!(store.insert_secret_key(1, None, "", 1), Err(StoreError::EmptyName));
    assert_eq!(store.insert_secret_key(1, None, "a", -1), Err(StoreError::InvalidThreshold));
    assert!(store.secrets.is_empty());
    store.insert_secret_key(1, None, "a", 0).unwrap();
    assert_eq!(
        store.set_secret_key_threshold(&"a".to_string(), -1),
        Err(StoreError::InvalidThreshold)
    );
    assert_eq!(store.secrets[0].threshold, 0);
    let (r, log) = store.import_secret(2, None, "", 1, Timestamp { seconds: 0, nanos: 0 }, vec![]);
    assert_eq!((r, log), (Err(StoreError::EmptyName), Ok(0)));
    assert_eq!(store.fero_logs[1].result, OperationResult::Failure);
}
