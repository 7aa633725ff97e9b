//! Keys read from OpenPGP packets: finding a secret subkey by fingerprint
//! and a user's key id. The packets come as plain values: the caller parses
//! the packet stream, since the parser can panic on some malformed streams.
use vstd::prelude::*;

use crate::import::{bit_length, bit_length_of, RsaKeyParts, MAX_KEY_BYTES};
use crate::log::opt_bytes;
use crate::service::{algorithm_for_bits, rsa_algorithm, KeyImportError};

verus! {

/// The kinds of packet that hold a key.
#[derive(Clone, Copy, Debug, PartialEq, Eq, Structural)]
pub enum KeyKind {
    PublicKey,
    PublicSubkey,
    SecretKey,
    SecretSubkey,
}

/// The key material of a key packet, as plain values.
#[derive(Clone, Debug)]
pub enum KeyMaterialKind {
    /// An RSA key: its modulus, and its primes if the packet holds the
    /// private part; each big-endian.
    Rsa { n: Vec<u8>, primes: Option<(Vec<u8>, Vec<u8>)> },
    Dsa,
    Elgamal,
}

/// The key material of a key packet, as a mathematical value.
pub enum MaterialView {
    Rsa { n: Seq<u8>, primes: Option<(Seq<u8>, Seq<u8>)> },
    Dsa,
    Elgamal,
}

impl View for KeyMaterialKind {
    type V = MaterialView;

    open spec fn view(&self) -> MaterialView {
        match self {
            KeyMaterialKind::Rsa { n, primes } => MaterialView::Rsa {
                n: n@,
                primes: match primes {
                    Some((p, q)) => Some((p@, q@)),
                    None => None,
                },
            },
            KeyMaterialKind::Dsa => MaterialView::Dsa,
            KeyMaterialKind::Elgamal => MaterialView::Elgamal,
        }
    }
}

/// A key packet as plain values.
#[derive(Clone, Debug)]
pub struct PgpKey {
    pub kind: KeyKind,
    pub fingerprint: Option<Vec<u8>>,
    pub material: KeyMaterialKind,
}

/// A key packet as a mathematical value.
pub struct PgpKeyView {
    pub kind: KeyKind,
    pub fingerprint: Option<Seq<u8>>,
    pub material: MaterialView,
}

impl View for PgpKey {
    type V = PgpKeyView;

    open spec fn view(&self) -> PgpKeyView {
        PgpKeyView {
            kind: self.kind,
            fingerprint: opt_bytes(self.fingerprint),
            material: self.material@,
        }
    }
}

/// A packet of a packet stream: a key, or another kind of packet.
#[derive(Clone, Debug)]
pub enum PgpPacket {
    Key(PgpKey),
    Other,
}

/// A packet as a mathematical value.
pub enum PacketView {
    Key(PgpKeyView),
    Other,
}

impl View for PgpPacket {
    type V = PacketView;

    open spec fn view(&self) -> PacketView {
        match self {
            PgpPacket::Key(k) => PacketView::Key(k@),
            PgpPacket::Other => PacketView::Other,
        }
    }
}

/// The views of a run of packets.
pub open spec fn packet_views(ps: Seq<PgpPacket>) -> Seq<PacketView> {
    ps.map_values(|p: PgpPacket| p@)
}

/// The views of a run of keys.
pub open spec fn key_views(ks: Seq<PgpKey>) -> Seq<PgpKeyView> {
    ks.map_values(|k: PgpKey| k@)
}

/// The keys among a run of packets, in order.
pub open spec fn keys_in(ps: Seq<PacketView>) -> Seq<PgpKeyView>
    decreases ps.len(),
{
    if ps.len() == 0 {
        Seq::empty()
    } else {
        match ps.last() {
            PacketView::Key(k) => keys_in(ps.drop_last()).push(k),
            PacketView::Other => keys_in(ps.drop_last()),
        }
    }
}

/// The key packets among `packets`, in order.
pub open spec fn pgp_keys_of(packets: Seq<PgpPacket>) -> Seq<PgpKeyView> {
    keys_in(packet_views(packets))
}

/// Why no key could be taken from a packet stream.
#[derive(Clone, Copy, Debug, PartialEq, Eq, Structural)]
pub enum PgpKeyError {
    /// No secret key or subkey has the fingerprint sought.
    SubkeyNotFound,
    /// More than one secret key or subkey has the fingerprint sought.
    DuplicateSubkey,
    /// The stream holds no key packet.
    NoKey,
    /// The key's fingerprint could not be computed.
    NoFingerprint,
    /// A version-3 key that is not an RSA key has no key id.
    UnsupportedVersion3Key,
    /// A version-3 RSA key whose modulus is shorter than 8 bytes has no key
    /// id.
    ShortModulus,
    /// The key has no private material.
    NoPrivateKey,
    /// The key is not an RSA key.
    NotRsa,
    /// The device does not take the key.
    Key(KeyImportError),
}

/// Whether `r` failed with `e`.
pub open spec fn fails_with<T>(r: Result<T, PgpKeyError>, e: PgpKeyError) -> bool {
    r matches Err(x) && x == e
}

/// The key packets among `packets`, in order.
pub fn key_packets(packets: Vec<PgpPacket>) -> (r: Vec<PgpKey>)
    ensures
        key_views(r@) == pgp_keys_of(packets@),
{
    let ghost all = packet_views(packets@);
    let mut rest = packets;
    let mut keys: Vec<PgpKey> = Vec::new();
    let ghost mut done: int = 0;
    assert(all.subrange(0, 0) =~= Seq::<PacketView>::empty());
    assert(packet_views(rest@) =~= all.subrange(0, all.len() as int));
    while rest.len() > 0
        invariant
            0 <= done <= all.len(),
            packet_views(rest@) == all.subrange(done, all.len() as int),
            key_views(keys@) == keys_in(all.subrange(0, done)),
        decreases rest@.len(),
    {
        let ghost before = rest@;
        let p = rest.remove(0);
        proof {
            assert(packet_views(before).len() == before.len());
            assert(packet_views(before)[0] == p@);
            assert(done < all.len());
            assert forall|j: int| 0 <= j < rest@.len() implies packet_views(rest@)[j] == all[done
                + 1 + j] by {
                assert(rest@[j] == before[j + 1]);
                assert(packet_views(before)[j + 1] == all.subrange(done, all.len() as int)[j + 1]);
            }
            assert(packet_views(rest@) =~= all.subrange(done + 1, all.len() as int));
            assert(all.subrange(0, done + 1).drop_last() =~= all.subrange(0, done));
            assert(all.subrange(0, done + 1).last() == all[done]);
        }
        let ghost before_keys = keys@;
        match p {
            PgpPacket::Key(k) => {
                keys.push(k);
                assert(key_views(keys@) =~= key_views(before_keys).push(keys@.last()@));
            },
            PgpPacket::Other => {},
        }
        proof {
            done = done + 1;
        }
    }
    assert(all.subrange(0, done) =~= all);
    keys
}

} // verus!

verus! {

/// A big-endian number without its leading zero bytes.
pub open spec fn strip_zeros(b: Seq<u8>) -> Seq<u8>
    decreases b.len(),
{
    if b.len() > 0 && b[0] == 0 {
        strip_zeros(b.drop_first())
    } else {
        b
    }
}

/// Whether two big-endian byte strings spell the same number.
pub open spec fn same_number(a: Seq<u8>, b: Seq<u8>) -> bool {
    strip_zeros(a) == strip_zeros(b)
}

/// The position of the first byte of `b` that is not zero, or its length.
pub fn first_nonzero(b: &[u8]) -> (r: usize)
    ensures
        r <= b@.len(),
        strip_zeros(b@) == b@.subrange(r as int, b@.len() as int),
{
    let mut i: usize = 0;
    assert(b@.subrange(0, b@.len() as int) =~= b@);
    while i < b.len() && b[i] == 0
        invariant
            i <= b@.len(),
            strip_zeros(b@) == strip_zeros(b@.subrange(i as int, b@.len() as int)),
        decreases b@.len() - i,
    {
        assert(b@.subrange(i as int, b@.len() as int).drop_first() =~= b@.subrange(
            i + 1,
            b@.len() as int,
        ));
        i = i + 1;
    }
    i
}

/// Whether two big-endian byte strings spell the same number.
pub fn same_number_exec(a: &[u8], b: &[u8]) -> (r: bool)
    ensures
        r == same_number(a@, b@),
{
    let i = first_nonzero(a);
    let j = first_nonzero(b);
    if a.len() - i != b.len() - j {
        assert(strip_zeros(a@).len() != strip_zeros(b@).len());
        return false;
    }
    let blen = b.len();
    let mut k: usize = 0;
    while k < a.len() - i
        invariant
            blen == b@.len(),
            i <= a@.len(),
            j <= b@.len(),
            a@.len() - i == b@.len() - j,
            k <= a@.len() - i,
            strip_zeros(a@) == a@.subrange(i as int, a@.len() as int),
            strip_zeros(b@) == b@.subrange(j as int, b@.len() as int),
            a@.subrange(i as int, i + k) == b@.subrange(j as int, j + k),
        decreases a@.len() - i - k,
    {
        assert(i + k < a@.len() && j + k < b@.len());
        let x = a[i + k];
        let y = b[j + k];
        if x != y {
            assert(a@.subrange(i as int, a@.len() as int)[k as int] == a@[i + k]);
            assert(b@.subrange(j as int, b@.len() as int)[k as int] == b@[j + k]);
            return false;
        }
        assert(a@.subrange(i as int, i + k + 1) =~= a@.subrange(i as int, i + k).push(a@[i + k]));
        assert(b@.subrange(j as int, j + k + 1) =~= b@.subrange(j as int, j + k).push(b@[j + k]));
        k = k + 1;
    }
    assert(strip_zeros(a@) =~= strip_zeros(b@));
    true
}

/// Whether a key packet holds a secret key or subkey.
pub open spec fn is_secret(k: PgpKeyView) -> bool {
    k.kind == KeyKind::SecretKey || k.kind == KeyKind::SecretSubkey
}

/// Whether a key packet is a secret key or subkey with the fingerprint
/// `wanted`, compared as numbers.
pub open spec fn has_fingerprint(k: PgpKeyView, wanted: Seq<u8>) -> bool {
    is_secret(k) && k.fingerprint is Some && same_number(k.fingerprint->Some_0, wanted)
}

/// Whether no secret key or subkey of `ks` has the fingerprint `wanted`.
pub open spec fn no_match(ks: Seq<PgpKeyView>, wanted: Seq<u8>) -> bool {
    forall|j: int| 0 <= j < ks.len() ==> !has_fingerprint(#[trigger] ks[j], wanted)
}

/// Whether two or more secret keys or subkeys of `ks` have the fingerprint
/// `wanted`.
pub open spec fn several_match(ks: Seq<PgpKeyView>, wanted: Seq<u8>) -> bool {
    exists|i: int, j: int|
        0 <= i < j < ks.len() && has_fingerprint(#[trigger] ks[i], wanted) && has_fingerprint(
            #[trigger] ks[j],
            wanted,
        )
}

/// The position of the one secret key or subkey with the fingerprint
/// `wanted`.
pub fn select_secret_subkey(keys: &[PgpKey], wanted: &[u8]) -> (r: Result<usize, PgpKeyError>)
    ensures
        r is Ok ==> r->Ok_0 < keys@.len() && has_fingerprint(keys@[r->Ok_0 as int]@, wanted@)
            && forall|j: int|
            0 <= j < keys@.len() && j != r->Ok_0 ==> !has_fingerprint((#[trigger] keys@[j])@, wanted@),
        r == Err::<usize, PgpKeyError>(PgpKeyError::SubkeyNotFound) <==> forall|j: int|
            0 <= j < keys@.len() ==> !has_fingerprint((#[trigger] keys@[j])@, wanted@),
        r == Err::<usize, PgpKeyError>(PgpKeyError::DuplicateSubkey) <==> exists|i: int, j: int|
            0 <= i < j < keys@.len() && has_fingerprint((#[trigger] keys@[i])@, wanted@)
                && has_fingerprint((#[trigger] keys@[j])@, wanted@),
        r is Ok || r == Err::<usize, PgpKeyError>(PgpKeyError::SubkeyNotFound) || r == Err::<
            usize,
            PgpKeyError,
        >(PgpKeyError::DuplicateSubkey),
{
    let mut found: Option<usize> = None;
    let mut i: usize = 0;
    while i < keys.len()
        invariant
            i <= keys@.len(),
            match found {
                None => forall|j: int| 0 <= j < i ==> !has_fingerprint((#[trigger] keys@[j])@, wanted@),
                Some(f) => f < i && has_fingerprint(keys@[f as int]@, wanted@) && forall|j: int|
                    0 <= j < i && j != f ==> !has_fingerprint((#[trigger] keys@[j])@, wanted@),
            },
        decreases keys@.len() - i,
    {
        let k = &keys[i];
        let hit = match &k.fingerprint {
            Some(fp) => (k.kind == KeyKind::SecretKey || k.kind == KeyKind::SecretSubkey)
                && same_number_exec(fp.as_slice(), wanted),
            None => false,
        };
        if hit {
            match found {
                Some(f) => {
                    assert(has_fingerprint(keys@[f as int]@, wanted@) && has_fingerprint(
                        keys@[i as int]@,
                        wanted@,
                    ));
                    return Err(PgpKeyError::DuplicateSubkey);
                },
                None => {
                    found = Some(i);
                },
            }
        }
        i = i + 1;
    }
    match found {
        Some(f) => Ok(f),
        None => Err(PgpKeyError::SubkeyNotFound),
    }
}

/// The number that big-endian bytes spell.
pub open spec fn be_value(b: Seq<u8>) -> int
    decreases b.len(),
{
    if b.len() == 0 {
        0
    } else {
        be_value(b.drop_last()) * 256 + b.last()
    }
}

/// 256 to the power `n`.
pub open spec fn byte_power(n: nat) -> int
    decreases n,
{
    if n == 0 {
        1
    } else {
        256 * byte_power((n - 1) as nat)
    }
}

proof fn lemma_be_value_bound(b: Seq<u8>)
    ensures
        0 <= be_value(b) < byte_power(b.len()),
    decreases b.len(),
{
    if b.len() > 0 {
        lemma_be_value_bound(b.drop_last());
        let v = be_value(b.drop_last());
        let p = byte_power(b.drop_last().len());
        let l = b.last();
        assert(0 <= v * 256 + l < 256 * p) by (nonlinear_arith)
            requires
                0 <= v < p,
                0 <= l < 256,
        ;
    }
}

/// The key id of a version-4 key: the low 64 bits of its 20-byte
/// fingerprint.
pub open spec fn v4_key_id(fingerprint: Seq<u8>) -> int {
    be_value(fingerprint.subrange(12, 20))
}

/// The number that the eight bytes of `b` from `start` spell.
pub fn u64_of_be8(b: &[u8], start: usize) -> (r: u64)
    requires
        start + 8 <= b@.len(),
    ensures
        r == be_value(b@.subrange(start as int, start + 8)),
{
    let len = b.len();
    let end = start + 8;
    let mut v: u64 = 0;
    let mut i: usize = start;
    proof {
        reveal_with_fuel(byte_power, 9);
        assert(byte_power(8) == 0x1_0000_0000_0000_0000);
        assert(b@.subrange(start as int, start as int) =~= Seq::<u8>::empty());
    }
    while i < end
        invariant
            len == b@.len(),
            end == start + 8,
            start <= i <= start + 8,
            start + 8 <= b@.len(),
            v == be_value(b@.subrange(start as int, i as int)),
            byte_power(8) == 0x1_0000_0000_0000_0000,
        decreases start + 8 - i,
    {
        let ghost next = b@.subrange(start as int, i + 1);
        proof {
            assert(next.drop_last() =~= b@.subrange(start as int, i as int));
            lemma_be_value_bound(next);
            assert(byte_power(next.len()) <= byte_power(8)) by {
                lemma_byte_power_mono(next.len(), 8);
            }
        }
        v = v * 256 + b[i] as u64;
        i = i + 1;
    }
    v
}

proof fn lemma_byte_power_mono(a: nat, b: nat)
    requires
        a <= b,
    ensures
        byte_power(a) <= byte_power(b),
    decreases b,
{
    if a < b {
        lemma_byte_power_mono(a, (b - 1) as nat);
        assert(byte_power(a) >= 1) by {
            lemma_byte_power_positive(a);
        }
    }
}

proof fn lemma_byte_power_positive(a: nat)
    ensures
        byte_power(a) >= 1,
    decreases a,
{
    if a > 0 {
        lemma_byte_power_positive((a - 1) as nat);
    }
}

} // verus!

verus! {

/// The key id of a key: for a version-4 key, whose fingerprint is 20
/// bytes of SHA-1, the low 64 bits of the fingerprint; for a version-3
/// key, whose fingerprint is 16 bytes of MD5, the low 64 bits of its RSA
/// modulus.
pub open spec fn key_id_spec(k: PgpKeyView) -> Result<u64, PgpKeyError> {
    match k.fingerprint {
        None => Err(PgpKeyError::NoFingerprint),
        Some(f) => if f.len() == 20 {
            Ok(v4_key_id(f) as u64)
        } else if f.len() == 16 {
            match k.material {
                MaterialView::Rsa { n, .. } => if n.len() >= 8 {
                    Ok(be_value(n.subrange(n.len() - 8, n.len() as int)) as u64)
                } else {
                    Err(PgpKeyError::ShortModulus)
                },
                _ => Err(PgpKeyError::UnsupportedVersion3Key),
            }
        } else {
            Err(PgpKeyError::NoFingerprint)
        },
    }
}

/// The key id of `key`.
pub fn key_id_of(key: &PgpKey) -> (r: Result<u64, PgpKeyError>)
    ensures
        r == key_id_spec(key@),
{
    match &key.fingerprint {
        None => Err(PgpKeyError::NoFingerprint),
        Some(f) => if f.len() == 20 {
            Ok(u64_of_be8(f.as_slice(), 12))
        } else if f.len() == 16 {
            match &key.material {
                KeyMaterialKind::Rsa { n, .. } => if n.len() >= 8 {
                    Ok(u64_of_be8(n.as_slice(), n.len() - 8))
                } else {
                    Err(PgpKeyError::ShortModulus)
                },
                _ => Err(PgpKeyError::UnsupportedVersion3Key),
            }
        } else {
            Err(PgpKeyError::NoFingerprint)
        },
    }
}

/// What `rsa_parts` gives for key material `m`.
pub open spec fn rsa_parts_outcome(m: MaterialView, r: Result<RsaKeyParts, PgpKeyError>) -> bool {
    match m {
        MaterialView::Rsa { n, primes: Some((p, q)) } => if n.len() >= MAX_KEY_BYTES {
            fails_with(r, PgpKeyError::Key(KeyImportError::UnknownKeySize(u64::MAX)))
        } else {
            match algorithm_for_bits(bit_length(n) as u64) {
                Ok(a) => r is Ok && r->Ok_0.n@ == n && r->Ok_0.p@ == p && r->Ok_0.q@ == q
                    && r->Ok_0.algorithm == a,
                Err(e) => fails_with(r, PgpKeyError::Key(e)),
            }
        },
        MaterialView::Rsa { primes: None, .. } => fails_with(r, PgpKeyError::NoPrivateKey),
        _ => fails_with(r, PgpKeyError::NotRsa),
    }
}

/// The RSA parts of a key with private material, and the device algorithm
/// for its size.
pub fn rsa_parts(material: KeyMaterialKind) -> (r: Result<RsaKeyParts, PgpKeyError>)
    ensures
        rsa_parts_outcome(material@, r),
{
    match material {
        KeyMaterialKind::Rsa { n, primes } => match primes {
            Some((p, q)) => {
                if n.len() >= MAX_KEY_BYTES {
                    return Err(PgpKeyError::Key(KeyImportError::UnknownKeySize(u64::MAX)));
                }
                match rsa_algorithm(bit_length_of(n.as_slice())) {
                    Ok(algorithm) => Ok(RsaKeyParts { n, p, q, algorithm }),
                    Err(e) => Err(PgpKeyError::Key(e)),
                }
            },
            None => Err(PgpKeyError::NoPrivateKey),
        },
        KeyMaterialKind::Dsa => Err(PgpKeyError::NotRsa),
        KeyMaterialKind::Elgamal => Err(PgpKeyError::NotRsa),
    }
}

/// The one secret key or subkey among `packets` whose fingerprint is
/// `subkey_id`, read as big-endian numbers.
pub fn find_secret_subkey(packets: Vec<PgpPacket>, subkey_id: &[u8]) -> (r: Result<
    PgpKey,
    PgpKeyError,
>)
    ensures
        ({
            let ks = pgp_keys_of(packets@);
            &&& no_match(ks, subkey_id@) ==> fails_with(r, PgpKeyError::SubkeyNotFound)
            &&& several_match(ks, subkey_id@) ==> fails_with(r, PgpKeyError::DuplicateSubkey)
            &&& forall|i: int|
                0 <= i < ks.len() && has_fingerprint(#[trigger] ks[i], subkey_id@) && !several_match(
                    ks,
                    subkey_id@,
                ) ==> r is Ok && r->Ok_0@ == ks[i]
        }),
{
    let mut keys = key_packets(packets);
    let ghost ks = key_views(keys@);
    proof {
        assert forall|j: int| 0 <= j < keys@.len() implies #[trigger] ks[j] == keys@[j]@ by {}
    }
    let i = match select_secret_subkey(keys.as_slice(), subkey_id) {
        Ok(i) => i,
        Err(e) => {
            proof {
                if e == PgpKeyError::SubkeyNotFound {
                    assert forall|j: int| 0 <= j < ks.len() implies !has_fingerprint(
                        #[trigger] ks[j],
                        subkey_id@,
                    ) by {
                        assert(ks[j] == keys@[j]@);
                    }
                } else {
                    let (a, b) = choose|a: int, b: int|
                        0 <= a < b < keys@.len() && has_fingerprint((#[trigger] keys@[a])@, subkey_id@)
                            && has_fingerprint((#[trigger] keys@[b])@, subkey_id@);
                    assert(ks[a] == keys@[a]@ && ks[b] == keys@[b]@);
                }
            }
            return Err(e);
        },
    };
    proof {
        assert(ks[i as int] == keys@[i as int]@);
        assert(!several_match(ks, subkey_id@)) by {
            if several_match(ks, subkey_id@) {
                let (a, b) = choose|a: int, b: int|
                    0 <= a < b < ks.len() && has_fingerprint(#[trigger] ks[a], subkey_id@)
                        && has_fingerprint(#[trigger] ks[b], subkey_id@);
                assert(ks[a] == keys@[a]@ && ks[b] == keys@[b]@);
            }
        }
        assert forall|j: int|
            0 <= j < ks.len() && has_fingerprint(#[trigger] ks[j], subkey_id@) implies j
            == i by {
            assert(ks[j] == keys@[j]@);
        }
    }
    Ok(keys.remove(i))
}

/// The key id of the first key among `packets`.
pub fn find_keyid(packets: Vec<PgpPacket>) -> (r: Result<u64, PgpKeyError>)
    ensures
        pgp_keys_of(packets@).len() == 0 ==> fails_with(r, PgpKeyError::NoKey),
        pgp_keys_of(packets@).len() > 0 ==> r == key_id_spec(pgp_keys_of(packets@)[0]),
{
    let keys = key_packets(packets);
    if keys.len() == 0 {
        return Err(PgpKeyError::NoKey);
    }
    assert(key_views(keys@)[0] == keys@[0]@);
    key_id_of(&keys[0])
}

/// What `pgp_secret_key` gives for the one matching key `k`.
pub open spec fn secret_key_outcome(k: PgpKeyView, r: Result<(RsaKeyParts, u64), PgpKeyError>) -> bool {
    match key_id_spec(k) {
        Err(e) => fails_with(r, e),
        Ok(id) => match k.material {
            MaterialView::Rsa { n, primes: Some((p, q)) } => if n.len() >= MAX_KEY_BYTES {
                fails_with(r, PgpKeyError::Key(KeyImportError::UnknownKeySize(u64::MAX)))
            } else {
                match algorithm_for_bits(bit_length(n) as u64) {
                    Ok(a) => r is Ok && r->Ok_0.0.n@ == n && r->Ok_0.0.p@ == p && r->Ok_0.0.q@ == q
                        && r->Ok_0.0.algorithm == a && r->Ok_0.1 == id,
                    Err(e) => fails_with(r, PgpKeyError::Key(e)),
                }
            },
            MaterialView::Rsa { primes: None, .. } => fails_with(r, PgpKeyError::NoPrivateKey),
            _ => fails_with(r, PgpKeyError::NotRsa),
        },
    }
}

/// The parts that the device takes of the secret subkey `subkey_id` among
/// `packets`, and the subkey's key id.
pub fn pgp_secret_key(packets: Vec<PgpPacket>, subkey_id: &[u8]) -> (r: Result<
    (RsaKeyParts, u64),
    PgpKeyError,
>)
    ensures
        ({
            let ks = pgp_keys_of(packets@);
            &&& no_match(ks, subkey_id@) ==> fails_with(r, PgpKeyError::SubkeyNotFound)
            &&& several_match(ks, subkey_id@) ==> fails_with(r, PgpKeyError::DuplicateSubkey)
            &&& forall|i: int|
                0 <= i < ks.len() && has_fingerprint(#[trigger] ks[i], subkey_id@) && !several_match(
                    ks,
                    subkey_id@,
                ) ==> secret_key_outcome(ks[i], r)
        }),
{
    let key = find_secret_subkey(packets, subkey_id)?;
    let id = key_id_of(&key)?;
    let parts = rsa_parts(key.material)?;
    Ok((parts, id))
}

} // verus!
