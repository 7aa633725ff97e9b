//! Audit-log records: the device's entries and the chained service entries.
use vstd::prelude::*;

use crate::codec::{
    bytes_equal, lemma_u16_round_trip, lemma_u32_round_trip, push_all, push_i64, push_u16,
    push_u32, push_u64, u16_be, u16_of_be, u32_be, u32_of_be, i64_be,
};
use crate::digest::{random_u64, sha256, sha256_of};

verus! {

/// The kind of operation that a service log entry records.
#[derive(Clone, Copy, Debug, PartialEq, Eq, Structural)]
pub enum OperationType {
    Sign,
    Threshold,
    Weight,
    AddSecret,
    AddUser,
}

impl OperationType {
    /// The byte that stands for the operation in a hashed entry.
    pub open spec fn code(self) -> u8 {
        match self {
            OperationType::Sign => 0,
            OperationType::Threshold => 1,
            OperationType::Weight => 2,
            OperationType::AddSecret => 3,
            OperationType::AddUser => 4,
        }
    }

    /// The byte that stands for this value in a hashed entry.
    pub fn to_byte(&self) -> (r: u8)
        ensures
            r == self.code(),
    {
        match self {
            OperationType::Sign => 0,
            OperationType::Threshold => 1,
            OperationType::Weight => 2,
            OperationType::AddSecret => 3,
            OperationType::AddUser => 4,
        }
    }
}

/// Whether a logged operation succeeded.
#[derive(Clone, Copy, Debug, PartialEq, Eq, Structural)]
pub enum OperationResult {
    Success,
    Failure,
}

impl OperationResult {
    /// The byte that stands for the outcome in a hashed entry.
    pub open spec fn code(self) -> u8 {
        match self {
            OperationResult::Success => 0,
            OperationResult::Failure => 1,
        }
    }

    /// The byte that stands for this value in a hashed entry.
    pub fn to_byte(&self) -> (r: u8)
        ensures
            r == self.code(),
    {
        match self {
            OperationResult::Success => 0,
            OperationResult::Failure => 1,
        }
    }
}

/// A UTC instant: whole seconds since the Unix epoch and the nanoseconds
/// past them.
#[derive(Clone, Copy, Debug, PartialEq, Eq, Structural)]
pub struct Timestamp {
    pub seconds: i64,
    pub nanos: u32,
}

/// The number of bytes that an entry of the device's audit log takes.
pub const HSM_LOG_ENTRY_LEN: usize = 32;

/// The number of bytes of the device's digest in one of its log entries.
pub const HSM_LOG_DIGEST_LEN: usize = 16;

/// One entry of the device's audit log, as a mathematical record.
pub struct HsmLogRecord {
    pub hsm_index: u16,
    pub command: u8,
    pub data_length: u16,
    pub session_key: u16,
    pub target_key: u16,
    pub second_key: u16,
    pub result: u8,
    pub systick: u32,
    pub hash: Seq<u8>,
}

/// The bytes of a device log entry: its fields big-endian, then its digest.
pub open spec fn hsm_log_bytes(r: HsmLogRecord) -> Seq<u8> {
    u16_be(r.hsm_index) + seq![r.command] + u16_be(r.data_length) + u16_be(r.session_key)
        + u16_be(r.target_key) + u16_be(r.second_key) + seq![r.result] + u32_be(r.systick)
        + r.hash
}

/// The device log entry that the first bytes of `b` hold.
pub open spec fn hsm_log_of_bytes(b: Seq<u8>) -> HsmLogRecord
    recommends
        b.len() >= HSM_LOG_ENTRY_LEN,
{
    HsmLogRecord {
        hsm_index: u16_of_be(b[0], b[1]),
        command: b[2],
        data_length: u16_of_be(b[3], b[4]),
        session_key: u16_of_be(b[5], b[6]),
        target_key: u16_of_be(b[7], b[8]),
        second_key: u16_of_be(b[9], b[10]),
        result: b[11],
        systick: u32_of_be(b[12], b[13], b[14], b[15]),
        hash: b.subrange(16, 32),
    }
}

/// Parsing the bytes of a device log entry whose digest has its full length
/// gives back the entry.
pub proof fn lemma_hsm_log_round_trip(r: HsmLogRecord)
    requires
        r.hash.len() == HSM_LOG_DIGEST_LEN,
    ensures
        hsm_log_bytes(r).len() == HSM_LOG_ENTRY_LEN,
        hsm_log_of_bytes(hsm_log_bytes(r)) == r,
{
    let b = hsm_log_bytes(r);
    lemma_u16_round_trip(r.hsm_index);
    lemma_u16_round_trip(r.data_length);
    lemma_u16_round_trip(r.session_key);
    lemma_u16_round_trip(r.target_key);
    lemma_u16_round_trip(r.second_key);
    lemma_u32_round_trip(r.systick);
    assert(b[0] == u16_be(r.hsm_index)[0] && b[1] == u16_be(r.hsm_index)[1]);
    assert(b[3] == u16_be(r.data_length)[0] && b[4] == u16_be(r.data_length)[1]);
    assert(b[5] == u16_be(r.session_key)[0] && b[6] == u16_be(r.session_key)[1]);
    assert(b[7] == u16_be(r.target_key)[0] && b[8] == u16_be(r.target_key)[1]);
    assert(b[9] == u16_be(r.second_key)[0] && b[10] == u16_be(r.second_key)[1]);
    assert(b[12] == u32_be(r.systick)[0] && b[13] == u32_be(r.systick)[1]);
    assert(b[14] == u32_be(r.systick)[2] && b[15] == u32_be(r.systick)[3]);
    assert(b.subrange(16, 32) =~= r.hash);
}

/// One entry of the device's audit log.
#[derive(Clone, Debug)]
pub struct HsmLogEntry {
    pub hsm_index: u16,
    pub command: u8,
    pub data_length: u16,
    pub session_key: u16,
    pub target_key: u16,
    pub second_key: u16,
    pub result: u8,
    pub systick: u32,
    pub hash: Vec<u8>,
}

impl View for HsmLogEntry {
    type V = HsmLogRecord;

    open spec fn view(&self) -> HsmLogRecord {
        HsmLogRecord {
            hsm_index: self.hsm_index,
            command: self.command,
            data_length: self.data_length,
            session_key: self.session_key,
            target_key: self.target_key,
            second_key: self.second_key,
            result: self.result,
            systick: self.systick,
            hash: self.hash@,
        }
    }
}

/// Why bytes could not be read as a device log entry.
#[derive(Clone, Copy, Debug, PartialEq, Eq, Structural)]
pub enum LogDecodeError {
    /// Fewer bytes than one entry takes.
    Truncated,
}

impl HsmLogEntry {
    /// Appends the bytes of this entry to `out`.
    pub fn write_to(&self, out: &mut Vec<u8>)
        ensures
            final(out)@ == old(out)@ + hsm_log_bytes(self@),
    {
        push_u16(out, self.hsm_index);
        out.push(self.command);
        push_u16(out, self.data_length);
        push_u16(out, self.session_key);
        push_u16(out, self.target_key);
        push_u16(out, self.second_key);
        out.push(self.result);
        push_u32(out, self.systick);
        push_all(out, self.hash.as_slice());
        assert(final(out)@ =~= old(out)@ + hsm_log_bytes(self@));
    }

    /// The bytes of this entry: its fields big-endian, then its digest.
    pub fn to_bytes(&self) -> (r: Vec<u8>)
        ensures
            r@ == hsm_log_bytes(self@),
    {
        let mut out: Vec<u8> = Vec::new();
        self.write_to(&mut out);
        assert(out@ =~= hsm_log_bytes(self@));
        out
    }

    /// Reads an entry from the first bytes of `bytes`; what follows them is
    /// not read.
    pub fn from_bytes(bytes: Vec<u8>) -> (r: Result<HsmLogEntry, LogDecodeError>)
        ensures
            r is Ok <==> bytes@.len() >= HSM_LOG_ENTRY_LEN,
            r is Ok ==> r->Ok_0@ == hsm_log_of_bytes(bytes@),
            r is Err ==> r == Err::<HsmLogEntry, LogDecodeError>(LogDecodeError::Truncated),
    {
        if bytes.len() < HSM_LOG_ENTRY_LEN {
            return Err(LogDecodeError::Truncated);
        }
        let mut hash: Vec<u8> = Vec::new();
        let mut i: usize = 16;
        while i < 32
            invariant
                16 <= i <= 32,
                bytes@.len() >= 32,
                hash@ == bytes@.subrange(16, i as int),
            decreases 32 - i,
        {
            hash.push(bytes[i]);
            i = i + 1;
            assert(hash@ =~= bytes@.subrange(16, i as int));
        }
        Ok(HsmLogEntry {
            hsm_index: (bytes[0] as u16) * 0x100 + bytes[1] as u16,
            command: bytes[2],
            data_length: (bytes[3] as u16) * 0x100 + bytes[4] as u16,
            session_key: (bytes[5] as u16) * 0x100 + bytes[6] as u16,
            target_key: (bytes[7] as u16) * 0x100 + bytes[8] as u16,
            second_key: (bytes[9] as u16) * 0x100 + bytes[10] as u16,
            result: bytes[11],
            systick: (bytes[12] as u32) * 0x100_0000 + (bytes[13] as u32) * 0x1_0000
                + (bytes[14] as u32) * 0x100 + bytes[15] as u32,
            hash,
        })
    }
}

/// The bytes of a run of device log entries, one after another.
pub open spec fn hsm_logs_bytes(logs: Seq<HsmLogRecord>) -> Seq<u8>
    decreases logs.len(),
{
    if logs.len() == 0 {
        Seq::empty()
    } else {
        hsm_logs_bytes(logs.drop_last()) + hsm_log_bytes(logs.last())
    }
}

/// The records of a run of device log entries.
pub open spec fn records_of(logs: Seq<HsmLogEntry>) -> Seq<HsmLogRecord> {
    logs.map_values(|e: HsmLogEntry| e@)
}

/// What is hashed for a service log entry: the operation, the whole seconds
/// of its time, the outcome, the device entries, the serialized
/// identification if any, and the hash of the entry before it.
pub open spec fn fero_log_preimage(
    request_type: OperationType,
    seconds: i64,
    result: OperationResult,
    hsm_logs: Seq<HsmLogRecord>,
    identification: Option<Seq<u8>>,
    parent_hash: Seq<u8>,
) -> Seq<u8> {
    seq![request_type.code()] + i64_be(seconds) + seq![result.code()] + hsm_logs_bytes(hsm_logs)
        + match identification {
        Some(i) => i,
        None => Seq::empty(),
    } + parent_hash
}

/// Appends the bytes of every entry of `logs` to `out`.
pub fn write_hsm_logs(out: &mut Vec<u8>, logs: &[HsmLogEntry])
    ensures
        final(out)@ == old(out)@ + hsm_logs_bytes(records_of(logs@)),
{
    let ghost start = out@;
    let mut i: usize = 0;
    while i < logs.len()
        invariant
            i <= logs@.len(),
            out@ == start + hsm_logs_bytes(records_of(logs@.subrange(0, i as int))),
        decreases logs@.len() - i,
    {
        logs[i].write_to(out);
        i = i + 1;
        let ghost prefix = records_of(logs@.subrange(0, i as int));
        assert(prefix.drop_last() =~= records_of(logs@.subrange(0, i - 1)));
        assert(out@ =~= start + hsm_logs_bytes(prefix));
    }
    assert(logs@.subrange(0, i as int) =~= logs@);
}

/// One entry of the service's hash-chained audit log.
#[derive(Clone, Debug)]
pub struct FeroLogEntry {
    pub request_type: OperationType,
    pub timestamp: Timestamp,
    pub result: OperationResult,
    pub hsm_logs: Vec<HsmLogEntry>,
    /// The serialized identification of the request, if it carried one.
    pub identification: Option<Vec<u8>>,
    pub hash: Vec<u8>,
}

/// The view of an optional byte vector.
pub open spec fn opt_bytes(o: Option<Vec<u8>>) -> Option<Seq<u8>> {
    match o {
        Some(v) => Some(v@),
        None => None,
    }
}

impl FeroLogEntry {
    /// What is hashed for this entry when `parent_hash` is the hash of the
    /// entry before it.
    pub open spec fn preimage(&self, parent_hash: Seq<u8>) -> Seq<u8> {
        fero_log_preimage(
            self.request_type,
            self.timestamp.seconds,
            self.result,
            records_of(self.hsm_logs@),
            opt_bytes(self.identification),
            parent_hash,
        )
    }

    /// Whether this entry's stored hash is the one computed over its
    /// contents and `parent_hash`.
    pub open spec fn links_to(&self, parent_hash: Seq<u8>) -> bool {
        self.hash@ == sha256_of(self.preimage(parent_hash))
    }

    /// The hash of this entry's contents chained onto `parent_log_hash`;
    /// the nanoseconds of the timestamp are not hashed.
    pub fn hash(&self, parent_log_hash: &[u8]) -> (r: Vec<u8>)
        ensures
            r@ == sha256_of(self.preimage(parent_log_hash@)),
            r@.len() == 32,
    {
        let mut buf: Vec<u8> = Vec::new();
        buf.push(self.request_type.to_byte());
        push_i64(&mut buf, self.timestamp.seconds);
        buf.push(self.result.to_byte());
        write_hsm_logs(&mut buf, self.hsm_logs.as_slice());
        match &self.identification {
            Some(ident) => push_all(&mut buf, ident.as_slice()),
            None => {},
        }
        push_all(&mut buf, parent_log_hash);
        assert(buf@ =~= self.preimage(parent_log_hash@));
        sha256(buf.as_slice())
    }

    /// Checks that each entry after the first carries the hash of its
    /// contents chained onto the hash of the entry before it. The first
    /// entry is the chain's seed and is not checked. On failure, gives the
    /// position of the first entry that does not match.
    #[verifier::rlimit(30)]
    pub fn verify(entries: &[FeroLogEntry]) -> (r: Result<(), usize>)
        ensures
            r is Ok <==> chain_links(entries@),
            r is Err ==> {
                let k = r->Err_0 as int;
                &&& 1 <= k < entries@.len()
                &&& !entries@[k].links_to(entries@[k - 1].hash@)
                &&& forall|j: int| 1 <= j < k ==> (#[trigger] entries@[j]).links_to(entries@[j - 1].hash@)
            },
    {
        let mut i: usize = 1;
        while i < entries.len()
            invariant
                1 <= i,
                forall|j: int|
                    1 <= j < i && j < entries@.len() ==> (#[trigger] entries@[j]).links_to(
                        entries@[j - 1].hash@,
                    ),
            decreases entries@.len() - i,
        {
            let h = entries[i].hash(entries[i - 1].hash.as_slice());
            if !bytes_equal(h.as_slice(), entries[i].hash.as_slice()) {
                return Err(i);
            }
            i = i + 1;
        }
        Ok(())
    }
}

/// Whether every entry after the first links to the one before it.
pub open spec fn chain_links(entries: Seq<FeroLogEntry>) -> bool {
    forall|j: int| 1 <= j < entries.len() ==> (#[trigger] entries[j]).links_to(entries[j - 1].hash@)
}

} // verus!

verus! {

/// The number of bytes of a service log entry's hash.
pub const FERO_LOG_HASH_LEN: usize = 32;

/// A random seed for the first entry of a chain: the SHA-256 digest of 32
/// random bytes.
pub fn random_seed() -> (r: Vec<u8>)
    ensures
        r@.len() == FERO_LOG_HASH_LEN,
{
    let mut buf: Vec<u8> = Vec::new();
    let mut i: usize = 0;
    while i < 4
        invariant
            i <= 4,
        decreases 4 - i,
    {
        push_u64(&mut buf, random_u64());
        i = i + 1;
    }
    sha256(buf.as_slice())
}

} // verus!
