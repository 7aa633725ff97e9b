//! The persistent state of the service: secrets, users, their weights, and
//! the two audit logs, with the invariants that keep them consistent.
use vstd::prelude::*;

use crate::codec::push_all;
use crate::digest::sha256_of;
use crate::log::{random_seed, FERO_LOG_HASH_LEN};
use crate::log::{
    fero_log_preimage, opt_bytes, records_of, FeroLogEntry, HsmLogEntry, HsmLogRecord,
    chain_links, OperationResult, OperationType,
    Timestamp,
};

verus! {

/// A private key held by the device, under a unique name.
#[derive(Clone, Debug)]
pub struct SecretKey {
    pub id: i32,
    /// The PGP key id, for a secret imported from a PGP packet.
    pub key_id: Option<i64>,
    pub threshold: i32,
    /// The device's object id of the key.
    pub hsm_id: i32,
    pub name: String,
}

/// A key holder: a PGP key id and the public key that verifies them.
#[derive(Clone, Debug)]
pub struct UserKey {
    pub id: i32,
    pub key_id: i64,
    pub key_data: Vec<u8>,
}

/// How much one user's signature counts towards one secret's threshold.
#[derive(Clone, Copy, Debug, PartialEq, Eq, Structural)]
pub struct UserKeyWeight {
    pub id: i32,
    pub user_id: i32,
    pub secret_id: i32,
    pub weight: i32,
}

/// A secret to be stored.
#[derive(Clone, Debug)]
pub struct NewSecret {
    pub key_id: Option<i64>,
    pub threshold: i32,
    pub hsm_id: i32,
    pub name: String,
}

/// A user to be stored.
#[derive(Clone, Debug)]
pub struct NewUserKey {
    pub key_id: i64,
    pub key_data: Vec<u8>,
}

/// A weight to be stored.
#[derive(Clone, Copy, Debug, PartialEq, Eq, Structural)]
pub struct NewWeight {
    pub user_id: i32,
    pub secret_id: i32,
    pub weight: i32,
}

/// Why the store refused a change.
#[derive(Clone, Copy, Debug, PartialEq, Eq, Structural)]
pub enum StoreError {
    /// A secret of that name, or with that device object id, is stored.
    DuplicateSecret,
    /// A user with that key id is stored.
    DuplicateUser,
    /// No secret of that name is stored.
    UnknownSecret,
    /// A secret's name must not be empty.
    EmptyName,
    /// A threshold must not be negative.
    InvalidThreshold,
    /// The table has no row id left.
    Full,
}

/// The largest row id.
pub const MAX_ROW_ID: usize = 0x7fff_ffff;

} // verus!

verus! {

/// A mirrored entry of the device's audit log, as stored.
#[derive(Clone, Debug)]
pub struct HsmLog {
    pub id: i32,
    pub hsm_index: i32,
    pub command: i32,
    pub data_length: i32,
    pub session_key: i32,
    pub target_key: i32,
    pub second_key: i32,
    pub result: i32,
    pub systick: i32,
    pub hash: Vec<u8>,
}

/// A device log entry to be stored.
#[derive(Clone, Debug)]
pub struct NewHsmLog {
    pub hsm_index: i32,
    pub command: i32,
    pub data_length: i32,
    pub session_key: i32,
    pub target_key: i32,
    pub second_key: i32,
    pub result: i32,
    pub systick: i32,
    pub hash: Vec<u8>,
}

/// An entry of the service's audit log, as stored. It covers the device
/// entries whose index lies above `hsm_index_start` and up to
/// `hsm_index_end`.
#[derive(Clone, Debug)]
pub struct FeroLog {
    pub id: i32,
    pub request_type: OperationType,
    pub timestamp: Timestamp,
    pub result: OperationResult,
    pub hsm_index_start: i32,
    pub hsm_index_end: i32,
    pub identification: Option<Vec<u8>>,
    pub hash: Vec<u8>,
}

/// A service log entry to be stored.
#[derive(Clone, Debug)]
pub struct NewFeroLog {
    pub request_type: OperationType,
    pub timestamp: Timestamp,
    pub result: OperationResult,
    pub hsm_index_start: i32,
    pub hsm_index_end: i32,
    pub identification: Option<Vec<u8>>,
    pub hash: Vec<u8>,
}

impl HsmLog {
    /// The device log entry that this row holds.
    pub open spec fn record(&self) -> HsmLogRecord {
        HsmLogRecord {
            hsm_index: self.hsm_index as u16,
            command: self.command as u8,
            data_length: self.data_length as u16,
            session_key: self.session_key as u16,
            target_key: self.target_key as u16,
            second_key: self.second_key as u16,
            result: self.result as u8,
            systick: self.systick as u32,
            hash: self.hash@,
        }
    }

    /// The device log entry that this row holds.
    pub fn to_entry(&self) -> (r: HsmLogEntry)
        ensures
            r@ == self.record(),
    {
        HsmLogEntry {
            hsm_index: self.hsm_index as u16,
            command: self.command as u8,
            data_length: self.data_length as u16,
            session_key: self.session_key as u16,
            target_key: self.target_key as u16,
            second_key: self.second_key as u16,
            result: self.result as u8,
            systick: self.systick as u32,
            hash: copy_bytes(self.hash.as_slice()),
        }
    }
}

/// A fresh vector with the bytes of `b`.
pub fn copy_bytes(b: &[u8]) -> (r: Vec<u8>)
    ensures
        r@ == b@,
{
    let mut out: Vec<u8> = Vec::new();
    push_all(&mut out, b);
    out
}

proof fn lemma_u32_through_i32(x: u32)
    ensures
        (x as i32) as u32 == x,
{
    assert((x as i32) as u32 == x) by (bit_vector);
}

proof fn lemma_u16_through_i32(x: u16)
    ensures
        (x as i32) as u16 == x,
{
    assert((x as i32) as u16 == x) by (bit_vector);
}

proof fn lemma_u8_through_i32(x: u8)
    ensures
        (x as i32) as u8 == x,
{
    assert((x as i32) as u8 == x) by (bit_vector);
}

impl NewHsmLog {
    /// The row for a device log entry.
    pub fn from_entry(e: &HsmLogEntry) -> (r: NewHsmLog)
        ensures
            r.hsm_index == e.hsm_index as i32,
            (HsmLog {
                id: 0,
                hsm_index: r.hsm_index,
                command: r.command,
                data_length: r.data_length,
                session_key: r.session_key,
                target_key: r.target_key,
                second_key: r.second_key,
                result: r.result,
                systick: r.systick,
                hash: r.hash,
            }).record() == e@,
    {
        proof {
            lemma_u16_through_i32(e.hsm_index);
            lemma_u8_through_i32(e.command);
            lemma_u16_through_i32(e.data_length);
            lemma_u16_through_i32(e.session_key);
            lemma_u16_through_i32(e.target_key);
            lemma_u16_through_i32(e.second_key);
            lemma_u8_through_i32(e.result);
            lemma_u32_through_i32(e.systick);
        }
        NewHsmLog {
            hsm_index: e.hsm_index as i32,
            command: e.command as i32,
            data_length: e.data_length as i32,
            session_key: e.session_key as i32,
            target_key: e.target_key as i32,
            second_key: e.second_key as i32,
            result: e.result as i32,
            systick: e.systick as i32,
            hash: copy_bytes(e.hash.as_slice()),
        }
    }
}

/// The rows of `logs` whose device index lies above `start` and up to
/// `end`, in their order.
pub open spec fn logs_in_range(logs: Seq<HsmLog>, start: int, end: int) -> Seq<HsmLog>
    decreases logs.len(),
{
    if logs.len() == 0 {
        Seq::empty()
    } else {
        let last = logs.last();
        logs_in_range(logs.drop_last(), start, end) + if start < last.hsm_index <= end {
            seq![last]
        } else {
            Seq::empty()
        }
    }
}

/// The device log entries that rows hold.
pub open spec fn records_of_rows(rows: Seq<HsmLog>) -> Seq<HsmLogRecord> {
    rows.map_values(|r: HsmLog| r.record())
}

} // verus!

verus! {

/// The device index of the last mirrored device log entry, or 0.
pub open spec fn last_index_of(hsm: Seq<HsmLog>) -> int {
    if hsm.len() == 0 {
        0
    } else {
        hsm.last().hsm_index as int
    }
}

/// What the hash of the service entry at position `k` covers, with the
/// device entries in its range as they stand in `hsm`.
pub open spec fn stored_preimage(fero: Seq<FeroLog>, hsm: Seq<HsmLog>, k: int) -> Seq<u8> {
    let e = fero[k];
    fero_log_preimage(
        e.request_type,
        e.timestamp.seconds,
        e.result,
        records_of_rows(logs_in_range(hsm, e.hsm_index_start as int, e.hsm_index_end as int)),
        opt_bytes(e.identification),
        fero[k - 1].hash@,
    )
}

/// Whether the service entry at position `k` carries the hash of its
/// contents chained onto the hash of the entry before it.
pub open spec fn link_holds(fero: Seq<FeroLog>, hsm: Seq<HsmLog>, k: int) -> bool {
    fero[k].hash@ == sha256_of(stored_preimage(fero, hsm, k))
}

/// The invariants of the two logs: ids dense from 1; device entries in
/// strictly ascending order of index; every service entry's range within
/// what is mirrored; and every service entry after the first, which is the
/// chain's random seed, hashed over its contents and its predecessor.
pub open spec fn logs_wf(fero: Seq<FeroLog>, hsm: Seq<HsmLog>) -> bool {
    &&& fero.len() <= MAX_ROW_ID
    &&& hsm.len() <= MAX_ROW_ID
    &&& forall|k: int| 0 <= k < fero.len() ==> (#[trigger] fero[k]).id == k + 1
    &&& forall|i: int| 0 <= i < hsm.len() ==> (#[trigger] hsm[i]).id == i + 1
    &&& forall|i: int| 0 <= i < hsm.len() ==> 0 <= (#[trigger] hsm[i]).hsm_index <= 0xffff
    &&& forall|i: int, j: int|
        0 <= i < j < hsm.len() ==> (#[trigger] hsm[i]).hsm_index < (#[trigger] hsm[j]).hsm_index
    &&& forall|k: int|
        0 <= k < fero.len() ==> 0 <= (#[trigger] fero[k]).hsm_index_start
            <= fero[k].hsm_index_end <= last_index_of(hsm)
    &&& forall|k: int| 1 <= k < fero.len() ==> #[trigger] link_holds(fero, hsm, k)
}

/// The invariants of the secrets: ids dense from 1, names non-empty,
/// thresholds not negative, names and device object ids unique.
pub open spec fn secrets_wf(s: Seq<SecretKey>) -> bool {
    &&& s.len() <= MAX_ROW_ID
    &&& forall|i: int| 0 <= i < s.len() ==> (#[trigger] s[i]).id == i + 1
    &&& forall|i: int|
        0 <= i < s.len() ==> (#[trigger] s[i]).name@.len() > 0 && s[i].threshold >= 0
    &&& forall|i: int, j: int|
        0 <= i < s.len() && 0 <= j < s.len() && i != j ==> (#[trigger] s[i]).name@ != (
        #[trigger] s[j]).name@ && s[i].hsm_id != s[j].hsm_id
}

/// The invariants of the users: ids dense from 1, key ids unique.
pub open spec fn users_wf(u: Seq<UserKey>) -> bool {
    &&& u.len() <= MAX_ROW_ID
    &&& forall|i: int| 0 <= i < u.len() ==> (#[trigger] u[i]).id == i + 1
    &&& forall|i: int, j: int|
        0 <= i < u.len() && 0 <= j < u.len() && i != j ==> (#[trigger] u[i]).key_id != (
        #[trigger] u[j]).key_id
}

/// The invariants of the weights: ids dense from 1, at most one row for a
/// user and a secret.
pub open spec fn weights_wf(w: Seq<UserKeyWeight>) -> bool {
    &&& w.len() <= MAX_ROW_ID
    &&& forall|i: int| 0 <= i < w.len() ==> (#[trigger] w[i]).id == i + 1
    &&& forall|i: int, j: int|
        0 <= i < w.len() && 0 <= j < w.len() && i != j ==> !((#[trigger] w[i]).user_id
            == (#[trigger] w[j]).user_id && w[i].secret_id == w[j].secret_id)
}

/// The state of the service: its secrets, its users and their weights,
/// and the two audit logs.
pub struct Configuration {
    pub secrets: Vec<SecretKey>,
    pub users: Vec<UserKey>,
    pub weights: Vec<UserKeyWeight>,
    pub fero_logs: Vec<FeroLog>,
    pub hsm_logs: Vec<HsmLog>,
}

impl Configuration {
    /// The invariants of every table.
    pub open spec fn wf(&self) -> bool {
        &&& secrets_wf(self.secrets@)
        &&& users_wf(self.users@)
        &&& weights_wf(self.weights@)
        &&& logs_wf(self.fero_logs@, self.hsm_logs@)
    }

    /// Whether a secret of this name is stored.
    pub open spec fn has_secret(&self, name: Seq<char>) -> bool {
        exists|i: int| 0 <= i < self.secrets@.len() && (#[trigger] self.secrets@[i]).name@ == name
    }

    /// Whether a user with this key id is stored.
    pub open spec fn has_user(&self, key_id: i64) -> bool {
        exists|i: int| 0 <= i < self.users@.len() && (#[trigger] self.users@[i]).key_id == key_id
    }

    /// An empty store.
    pub fn new() -> (r: Configuration)
        ensures
            r.wf(),
            r.secrets@.len() == 0,
            r.users@.len() == 0,
            r.weights@.len() == 0,
            r.fero_logs@.len() == 0,
            r.hsm_logs@.len() == 0,
    {
        Configuration {
            secrets: Vec::new(),
            users: Vec::new(),
            weights: Vec::new(),
            fero_logs: Vec::new(),
            hsm_logs: Vec::new(),
        }
    }

    /// The position of the secret named `name`.
    pub fn find_secret(&self, name: &String) -> (r: Option<usize>)
        ensures
            r is None <==> !self.has_secret(name@),
            r is Some ==> r->Some_0 < self.secrets@.len() && self.secrets@[r->Some_0 as int].name@
                == name@,
    {
        let mut i: usize = 0;
        while i < self.secrets.len()
            invariant
                i <= self.secrets@.len(),
                forall|j: int| 0 <= j < i ==> (#[trigger] self.secrets@[j]).name@ != name@,
            decreases self.secrets@.len() - i,
        {
            if self.secrets[i].name == *name {
                return Some(i);
            }
            i = i + 1;
        }
        None
    }

    /// The position of the user with key id `key_id`.
    pub fn find_user(&self, key_id: i64) -> (r: Option<usize>)
        ensures
            r is None <==> !self.has_user(key_id),
            r is Some ==> r->Some_0 < self.users@.len() && self.users@[r->Some_0 as int].key_id
                == key_id,
    {
        let mut i: usize = 0;
        while i < self.users.len()
            invariant
                i <= self.users@.len(),
                forall|j: int| 0 <= j < i ==> (#[trigger] self.users@[j]).key_id != key_id,
            decreases self.users@.len() - i,
        {
            if self.users[i].key_id == key_id {
                return Some(i);
            }
            i = i + 1;
        }
        None
    }

    /// The position of the weight row of a user for a secret.
    pub fn find_weight(&self, user_id: i32, secret_id: i32) -> (r: Option<usize>)
        ensures
            r is None <==> !(exists|i: int|
                0 <= i < self.weights@.len() && (#[trigger] self.weights@[i]).user_id == user_id
                    && self.weights@[i].secret_id == secret_id),
            r is Some ==> r->Some_0 < self.weights@.len() && self.weights@[r->Some_0 as int].user_id
                == user_id && self.weights@[r->Some_0 as int].secret_id == secret_id,
    {
        let mut i: usize = 0;
        while i < self.weights.len()
            invariant
                i <= self.weights@.len(),
                forall|j: int|
                    0 <= j < i ==> !((#[trigger] self.weights@[j]).user_id == user_id
                        && self.weights@[j].secret_id == secret_id),
            decreases self.weights@.len() - i,
        {
            if self.weights[i].user_id == user_id && self.weights[i].secret_id == secret_id {
                return Some(i);
            }
            i = i + 1;
        }
        None
    }
}

} // verus!

verus! {

impl Configuration {
    /// Whether a secret with this device object id is stored.
    pub open spec fn has_hsm_id(&self, hsm_id: i32) -> bool {
        exists|i: int| 0 <= i < self.secrets@.len() && (#[trigger] self.secrets@[i]).hsm_id == hsm_id
    }

    fn find_hsm_id(&self, hsm_id: i32) -> (r: bool)
        ensures
            r == self.has_hsm_id(hsm_id),
    {
        let mut i: usize = 0;
        while i < self.secrets.len()
            invariant
                i <= self.secrets@.len(),
                forall|j: int| 0 <= j < i ==> (#[trigger] self.secrets@[j]).hsm_id != hsm_id,
            decreases self.secrets@.len() - i,
        {
            if self.secrets[i].hsm_id == hsm_id {
                return true;
            }
            i = i + 1;
        }
        false
    }

    /// Stores a secret. Names and device object ids are unique.
    pub fn insert_secret_key(
        &mut self,
        hsm_id: i32,
        key_id: Option<i64>,
        name: &str,
        threshold: i32,
    ) -> (r: Result<(), StoreError>)
        requires
            old(self).wf(),
        ensures
            final(self).wf(),
            final(self).users == old(self).users,
            final(self).weights == old(self).weights,
            final(self).fero_logs == old(self).fero_logs,
            final(self).hsm_logs == old(self).hsm_logs,
            name@.len() == 0 ==> r == Err::<(), StoreError>(StoreError::EmptyName),
            name@.len() > 0 && threshold < 0 ==> r == Err::<(), StoreError>(
                StoreError::InvalidThreshold,
            ),
            name@.len() > 0 && threshold >= 0 && (old(self).has_secret(name@) || old(self).has_hsm_id(hsm_id)) ==> r == Err::<(), StoreError>(StoreError::DuplicateSecret),
            name@.len() > 0 && threshold >= 0 && !(old(self).has_secret(name@) || old(self).has_hsm_id(hsm_id))
                && old(self).secrets@.len() == MAX_ROW_ID ==> r == Err::<(), StoreError>(StoreError::Full),
            r is Err ==> final(self).secrets@ == old(self).secrets@,
            r is Ok ==> {
                let s = final(self).secrets@.last();
                &&& final(self).secrets@.len() == old(self).secrets@.len() + 1
                &&& final(self).secrets@.drop_last() == old(self).secrets@
                &&& s.id == final(self).secrets@.len()
                &&& s.hsm_id == hsm_id
                &&& s.key_id == key_id
                &&& s.name@ == name@
                &&& s.threshold == threshold
            },
            name@.len() > 0 && threshold >= 0 && !(old(self).has_secret(name@) || old(self).has_hsm_id(hsm_id))
                && old(self).secrets@.len() < MAX_ROW_ID ==> r is Ok,
    {
        if name.is_empty() {
            return Err(StoreError::EmptyName);
        }
        if threshold < 0 {
            return Err(StoreError::InvalidThreshold);
        }
        let name = name.to_owned();
        if self.find_secret(&name).is_some() || self.find_hsm_id(hsm_id) {
            return Err(StoreError::DuplicateSecret);
        }
        if self.secrets.len() >= MAX_ROW_ID {
            return Err(StoreError::Full);
        }
        let id = (self.secrets.len() + 1) as i32;
        let ghost before = self.secrets@;
        self.secrets.push(SecretKey { id, key_id, threshold, hsm_id, name });
        assert(self.secrets@.drop_last() =~= before);
        assert forall|i: int, j: int|
            0 <= i < self.secrets@.len() && 0 <= j < self.secrets@.len() && i != j implies
            (#[trigger] self.secrets@[i]).name@ != (#[trigger] self.secrets@[j]).name@
                && self.secrets@[i].hsm_id != self.secrets@[j].hsm_id by {
            if i < before.len() && j < before.len() {
                assert(before[i] == self.secrets@[i] && before[j] == self.secrets@[j]);
            } else if i < before.len() {
                assert(before[i] == self.secrets@[i]);
            } else {
                assert(before[j] == self.secrets@[j]);
            }
        }
        Ok(())
    }

    /// Stores a user. Key ids are unique.
    pub fn insert_user_key(&mut self, key_id: u64, key_data: &[u8]) -> (r: Result<(), StoreError>)
        requires
            old(self).wf(),
        ensures
            final(self).wf(),
            final(self).secrets == old(self).secrets,
            final(self).weights == old(self).weights,
            final(self).fero_logs == old(self).fero_logs,
            final(self).hsm_logs == old(self).hsm_logs,
            old(self).has_user(key_id as i64) ==> r == Err::<(), StoreError>(StoreError::DuplicateUser),
            !old(self).has_user(key_id as i64) && old(self).users@.len() == MAX_ROW_ID ==> r
                == Err::<(), StoreError>(StoreError::Full),
            !old(self).has_user(key_id as i64) && old(self).users@.len() < MAX_ROW_ID ==> r is Ok,
            r is Err ==> final(self).users@ == old(self).users@,
            r is Ok ==> {
                let u = final(self).users@.last();
                &&& final(self).users@.len() == old(self).users@.len() + 1
                &&& final(self).users@.drop_last() == old(self).users@
                &&& u.id == final(self).users@.len()
                &&& u.key_id == key_id as i64
                &&& u.key_data@ == key_data@
            },
    {
        if self.find_user(key_id as i64).is_some() {
            return Err(StoreError::DuplicateUser);
        }
        if self.users.len() >= MAX_ROW_ID {
            return Err(StoreError::Full);
        }
        let id = (self.users.len() + 1) as i32;
        let ghost before = self.users@;
        self.users.push(UserKey { id, key_id: key_id as i64, key_data: copy_bytes(key_data) });
        assert(self.users@.drop_last() =~= before);
        assert forall|i: int, j: int|
            0 <= i < self.users@.len() && 0 <= j < self.users@.len() && i != j implies
            (#[trigger] self.users@[i]).key_id != (#[trigger] self.users@[j]).key_id by {
            if i < before.len() && j < before.len() {
                assert(before[i] == self.users@[i] && before[j] == self.users@[j]);
            } else if i < before.len() {
                assert(before[i] == self.users@[i]);
            } else {
                assert(before[j] == self.users@[j]);
            }
        }
        Ok(())
    }

    /// A copy of the user with key id `key_id`, if one is stored.
    pub fn get_user_key(&self, key_id: u64) -> (r: Option<UserKey>)
        ensures
            r is None <==> !self.has_user(key_id as i64),
            r is Some ==> exists|i: int|
                0 <= i < self.users@.len() && (#[trigger] self.users@[i]).key_id == key_id as i64
                    && r->Some_0.id == self.users@[i].id && r->Some_0.key_id == key_id as i64
                    && r->Some_0.key_data@ == self.users@[i].key_data@,
    {
        match self.find_user(key_id as i64) {
            Some(i) => {
                let u = &self.users[i];
                Some(UserKey { id: u.id, key_id: u.key_id, key_data: copy_bytes(u.key_data.as_slice()) })
            },
            None => None,
        }
    }

    /// Sets the weight of a user for the secret named `secret_name`: the
    /// row of that pair is updated, or added if there is none.
    pub fn upsert_user_key_weight(&mut self, secret_name: &String, user_id: i32, weight: i32) -> (r:
        Result<(), StoreError>)
        requires
            old(self).wf(),
        ensures
            final(self).wf(),
            final(self).secrets == old(self).secrets,
            final(self).users == old(self).users,
            final(self).fero_logs == old(self).fero_logs,
            final(self).hsm_logs == old(self).hsm_logs,
            !old(self).has_secret(secret_name@) ==> r == Err::<(), StoreError>(StoreError::UnknownSecret),
            r is Err ==> final(self).weights@ == old(self).weights@,
            r is Ok ==> exists|s: int|
                0 <= s < old(self).secrets@.len() && (#[trigger] old(self).secrets@[s]).name@
                    == secret_name@ && weight_set(
                    old(self).weights@,
                    final(self).weights@,
                    user_id,
                    old(self).secrets@[s].id,
                    weight,
                ),
            old(self).has_secret(secret_name@) && old(self).weights@.len() < MAX_ROW_ID ==> r is Ok,
    {
        let s = match self.find_secret(secret_name) {
            Some(s) => s,
            None => return Err(StoreError::UnknownSecret),
        };
        let secret_id = self.secrets[s].id;
        let ghost before = self.weights@;
        match self.find_weight(user_id, secret_id) {
            Some(i) => {
                let row = UserKeyWeight { id: self.weights[i].id, user_id, secret_id, weight };
                self.weights.set(i, row);
                assert(self.weights@ =~= before.update(i as int, row));
                assert forall|a: int, b: int|
                    0 <= a < self.weights@.len() && 0 <= b < self.weights@.len() && a != b implies
                    !((#[trigger] self.weights@[a]).user_id == (#[trigger] self.weights@[b]).user_id
                        && self.weights@[a].secret_id == self.weights@[b].secret_id) by {
                    assert(before[a].user_id == before[b].user_id ==> before[a].secret_id
                        != before[b].secret_id);
                }
            },
            None => {
                if self.weights.len() >= MAX_ROW_ID {
                    return Err(StoreError::Full);
                }
                let id = (self.weights.len() + 1) as i32;
                self.weights.push(UserKeyWeight { id, user_id, secret_id, weight });
                assert(self.weights@.drop_last() =~= before);
                assert forall|a: int, b: int|
                    0 <= a < self.weights@.len() && 0 <= b < self.weights@.len() && a != b implies
                    !((#[trigger] self.weights@[a]).user_id == (#[trigger] self.weights@[b]).user_id
                        && self.weights@[a].secret_id == self.weights@[b].secret_id) by {
                    if a < before.len() && b < before.len() {
                        assert(before[a] == self.weights@[a] && before[b] == self.weights@[b]);
                    } else if a < before.len() {
                        assert(before[a] == self.weights@[a]);
                    } else {
                        assert(before[b] == self.weights@[b]);
                    }
                }
            },
        }
        Ok(())
    }

    /// Sets the threshold of the secret named `secret_name`.
    pub fn set_secret_key_threshold(&mut self, secret_name: &String, threshold: i32) -> (r: Result<
        (),
        StoreError,
    >)
        requires
            old(self).wf(),
        ensures
            final(self).wf(),
            final(self).users == old(self).users,
            final(self).weights == old(self).weights,
            final(self).fero_logs == old(self).fero_logs,
            final(self).hsm_logs == old(self).hsm_logs,
            threshold < 0 ==> r == Err::<(), StoreError>(StoreError::InvalidThreshold),
            threshold >= 0 ==> (r is Err <==> !old(self).has_secret(secret_name@)),
            threshold >= 0 && r is Err ==> r == Err::<(), StoreError>(StoreError::UnknownSecret),
            r is Err ==> final(self).secrets@ == old(self).secrets@,
            r is Ok ==> exists|s: int|
                0 <= s < old(self).secrets@.len() && (#[trigger] old(self).secrets@[s]).name@
                    == secret_name@ && final(self).secrets@ == old(self).secrets@.update(
                    s,
                    SecretKey { threshold, ..old(self).secrets@[s] },
                ),
    {
        if threshold < 0 {
            return Err(StoreError::InvalidThreshold);
        }
        let s = match self.find_secret(secret_name) {
            Some(s) => s,
            None => return Err(StoreError::UnknownSecret),
        };
        let ghost before = self.secrets@;
        let old_row = &self.secrets[s];
        let row = SecretKey {
            id: old_row.id,
            key_id: old_row.key_id,
            threshold,
            hsm_id: old_row.hsm_id,
            name: old_row.name.clone(),
        };
        self.secrets.set(s, row);
        assert(self.secrets@ =~= before.update(s as int, SecretKey { threshold, ..before[s as int] }));
        assert forall|i: int, j: int|
            0 <= i < self.secrets@.len() && 0 <= j < self.secrets@.len() && i != j implies
            (#[trigger] self.secrets@[i]).name@ != (#[trigger] self.secrets@[j]).name@
                && self.secrets@[i].hsm_id != self.secrets@[j].hsm_id by {
            assert(before[i].name@ != before[j].name@ && before[i].hsm_id != before[j].hsm_id);
        }
        Ok(())
    }
}

/// Whether `after` is `before` with the weight of `user_id` for `secret_id`
/// set to `weight`: the pair's row updated in place, or a row added for it.
pub open spec fn weight_set(
    before: Seq<UserKeyWeight>,
    after: Seq<UserKeyWeight>,
    user_id: i32,
    secret_id: i32,
    weight: i32,
) -> bool {
    ||| exists|i: int|
        0 <= i < before.len() && (#[trigger] before[i]).user_id == user_id && before[i].secret_id
            == secret_id && after == before.update(
            i,
            UserKeyWeight { weight, ..before[i] },
        )
    ||| (forall|i: int|
        0 <= i < before.len() ==> !((#[trigger] before[i]).user_id == user_id
            && before[i].secret_id == secret_id)) && after == before.push(
        UserKeyWeight { id: (before.len() + 1) as i32, user_id, secret_id, weight },
    )
}

} // verus!

verus! {

/// Selecting a range from two runs of rows selects from each.
pub proof fn lemma_range_append(a: Seq<HsmLog>, b: Seq<HsmLog>, start: int, end: int)
    ensures
        logs_in_range(a + b, start, end) == logs_in_range(a, start, end) + logs_in_range(
            b,
            start,
            end,
        ),
    decreases b.len(),
{
    if b.len() == 0 {
        assert(a + b =~= a);
        assert(logs_in_range(a, start, end) + logs_in_range(b, start, end) =~= logs_in_range(
            a,
            start,
            end,
        ));
    } else {
        lemma_range_append(a, b.drop_last(), start, end);
        assert((a + b).drop_last() =~= a + b.drop_last());
        assert((a + b).last() == b.last());
        assert(logs_in_range(a + b, start, end) =~= logs_in_range(a, start, end) + logs_in_range(
            b,
            start,
            end,
        ));
    }
}

/// No row whose index lies outside the range is selected.
pub proof fn lemma_range_none(a: Seq<HsmLog>, start: int, end: int)
    requires
        forall|i: int|
            0 <= i < a.len() ==> !(start < (#[trigger] a[i]).hsm_index as int <= end),
    ensures
        logs_in_range(a, start, end) == Seq::<HsmLog>::empty(),
    decreases a.len(),
{
    if a.len() > 0 {
        assert forall|i: int| 0 <= i < a.drop_last().len() implies !(start < (
        #[trigger] a.drop_last()[i]).hsm_index as int <= end) by {
            assert(a.drop_last()[i] == a[i]);
        }
        lemma_range_none(a.drop_last(), start, end);
        assert(logs_in_range(a, start, end) =~= Seq::<HsmLog>::empty());
    }
}

/// Every row whose index lies inside the range is selected.
pub proof fn lemma_range_all(a: Seq<HsmLog>, start: int, end: int)
    requires
        forall|i: int| 0 <= i < a.len() ==> start < (#[trigger] a[i]).hsm_index as int <= end,
    ensures
        logs_in_range(a, start, end) == a,
    decreases a.len(),
{
    if a.len() > 0 {
        assert forall|i: int| 0 <= i < a.drop_last().len() implies start < (
        #[trigger] a.drop_last()[i]).hsm_index as int <= end by {
            assert(a.drop_last()[i] == a[i]);
        }
        lemma_range_all(a.drop_last(), start, end);
        assert(logs_in_range(a, start, end) =~= a);
    }
}

/// Why an operation could not be appended to the audit log.
#[derive(Clone, Copy, Debug, PartialEq, Eq, Structural)]
pub enum LogAppendError {
    /// The device's entries do not rise strictly above the last mirrored
    /// index: its counter has wrapped or its log was reset.
    IndexNotAdvancing,
    /// A log table has no row id left.
    Full,
}

/// Whether the indexes of `mirror` rise strictly, all above `last`.
pub open spec fn rises_above(mirror: Seq<HsmLogEntry>, last: int) -> bool {
    &&& forall|i: int| 0 <= i < mirror.len() ==> last < (#[trigger] mirror[i]).hsm_index
    &&& forall|i: int, j: int|
        0 <= i < j < mirror.len() ==> (#[trigger] mirror[i]).hsm_index < (
        #[trigger] mirror[j]).hsm_index
}

impl NewFeroLog {
    /// Whether this is the first entry of a chain: a signing operation at
    /// the epoch covering no device entries, whose hash is a random seed.
    pub open spec fn is_root(&self) -> bool {
        &&& self.request_type == OperationType::Sign
        &&& self.timestamp == Timestamp { seconds: 0, nanos: 0 }
        &&& self.result == OperationResult::Success
        &&& self.hsm_index_start == 0
        &&& self.hsm_index_end == 0
        &&& self.identification is None
        &&& self.hash@.len() == FERO_LOG_HASH_LEN
    }

    /// The first entry of a new chain, with a fresh random seed.
    pub fn root() -> (r: NewFeroLog)
        ensures
            r.is_root(),
    {
        NewFeroLog {
            request_type: OperationType::Sign,
            timestamp: Timestamp { seconds: 0, nanos: 0 },
            result: OperationResult::Success,
            hsm_index_start: 0,
            hsm_index_end: 0,
            identification: None,
            hash: random_seed(),
        }
    }
}

impl Configuration {
    /// Whether the device entries `mirror` can be appended: their indexes
    /// rise strictly above the last mirrored one, and the logs have room.
    pub open spec fn appendable(&self, mirror: Seq<HsmLogEntry>) -> bool {
        &&& rises_above(mirror, last_index_of(self.hsm_logs@))
        &&& self.hsm_logs@.len() + mirror.len() <= MAX_ROW_ID
        &&& self.fero_logs@.len() + 2 <= MAX_ROW_ID
    }
}

/// Whether `e` is the first entry of a chain: row id 1, a signing operation
/// at the epoch covering no device entries, whose hash is a random seed.
pub open spec fn is_root_log(e: FeroLog) -> bool {
    &&& e.id == 1
    &&& e.request_type == OperationType::Sign
    &&& e.timestamp == Timestamp { seconds: 0, nanos: 0 }
    &&& e.result == OperationResult::Success
    &&& e.hsm_index_start == 0
    &&& e.hsm_index_end == 0
    &&& e.identification is None
    &&& e.hash@.len() == FERO_LOG_HASH_LEN
}

/// Whether `after` is `before` with one entry appended, and, when
/// `before` was empty, the chain's first entry written ahead of it.
pub open spec fn one_entry_appended(before: Seq<FeroLog>, after: Seq<FeroLog>) -> bool {
    if before.len() == 0 {
        after.len() == 2 && is_root_log(after[0])
    } else {
        after.len() == before.len() + 1 && after.drop_last() == before
    }
}

/// Whether the logs of `after` are those of `before` with one operation
/// logged: one service entry appended, and device entries mirrored after
/// those already there.
pub open spec fn operation_logged(before: Configuration, after: Configuration) -> bool {
    &&& one_entry_appended(before.fero_logs@, after.fero_logs@)
    &&& after.hsm_logs@.len() >= before.hsm_logs@.len()
    &&& after.hsm_logs@.subrange(0, before.hsm_logs@.len() as int) == before.hsm_logs@
}

/// Whether the logs of `after` are those of `before`.
pub open spec fn logs_kept(before: Configuration, after: Configuration) -> bool {
    after.fero_logs == before.fero_logs && after.hsm_logs == before.hsm_logs
}

/// In a well-formed store the ids of the service log run 1, 2, 3, ... with
/// neither gap nor repeat, so they rise strictly.
pub proof fn lemma_log_ids_dense(store: Configuration)
    requires
        store.wf(),
    ensures
        forall|k: int| 0 <= k < store.fero_logs@.len() ==> (#[trigger] store.fero_logs@[k]).id == k + 1,
        forall|i: int, j: int|
            0 <= i < j < store.fero_logs@.len() ==> (#[trigger] store.fero_logs@[i]).id < (
            #[trigger] store.fero_logs@[j]).id,
{
}

impl Configuration {
    /// The device index of the last mirrored device log entry, or 0.
    pub fn last_hsm_index(&self) -> (r: u16)
        requires
            self.wf(),
        ensures
            r as int == last_index_of(self.hsm_logs@),
    {
        if self.hsm_logs.len() == 0 {
            0
        } else {
            let last = &self.hsm_logs[self.hsm_logs.len() - 1];
            last.hsm_index as u16
        }
    }

    /// Checks that the indexes of `mirror` rise strictly, all above `last`.
    pub fn check_rises_above(mirror: &[HsmLogEntry], last: u16) -> (r: bool)
        ensures
            r == rises_above(mirror@, last as int),
    {
        let mut prev: u16 = last;
        let mut i: usize = 0;
        while i < mirror.len()
            invariant
                i <= mirror@.len(),
                prev == if i == 0 { last } else { mirror@[i - 1].hsm_index },
                rises_above(mirror@.subrange(0, i as int), last as int),
            decreases mirror@.len() - i,
        {
            if mirror[i].hsm_index <= prev {
                assert(!rises_above(mirror@, last as int)) by {
                    if i > 0 {
                        assert(mirror@[i - 1].hsm_index >= mirror@[i as int].hsm_index);
                    }
                }
                return false;
            }
            proof {
                let s = mirror@.subrange(0, i + 1);
                assert forall|a: int, b: int| 0 <= a < b < s.len() implies (#[trigger] s[a]).hsm_index
                    < (#[trigger] s[b]).hsm_index by {
                    if b == i {
                        if a < i - 1 {
                            assert(mirror@.subrange(0, i as int)[a] == s[a]);
                            assert(mirror@.subrange(0, i as int)[i - 1] == s[i - 1]);
                        }
                    } else {
                        assert(mirror@.subrange(0, i as int)[a] == s[a]);
                        assert(mirror@.subrange(0, i as int)[b] == s[b]);
                    }
                }
                assert forall|a: int| 0 <= a < s.len() implies last < (#[trigger] s[a]).hsm_index by {
                    if a < i {
                        assert(mirror@.subrange(0, i as int)[a] == s[a]);
                    } else if i > 0 {
                        assert(mirror@.subrange(0, i as int)[i - 1] == mirror@[i - 1]);
                    }
                }
            }
            prev = mirror[i].hsm_index;
            i = i + 1;
        }
        assert(mirror@.subrange(0, i as int) =~= mirror@);
        true
    }
}

} // verus!

verus! {

/// Every mirrored index is at most the last one.
proof fn lemma_last_is_max(fero: Seq<FeroLog>, hsm: Seq<HsmLog>)
    requires
        logs_wf(fero, hsm),
    ensures
        forall|i: int| 0 <= i < hsm.len() ==> (#[trigger] hsm[i]).hsm_index <= last_index_of(hsm),
{
    assert forall|i: int| 0 <= i < hsm.len() implies (#[trigger] hsm[i]).hsm_index <= last_index_of(
        hsm,
    ) by {
        if i < hsm.len() - 1 {
            assert(hsm[i].hsm_index < hsm[hsm.len() - 1].hsm_index);
        }
    }
}

/// Mirroring rows whose indexes rise above the last mirrored one keeps the
/// invariants of the logs, and what each service entry covers.
proof fn lemma_mirror_keeps_logs_wf(fero: Seq<FeroLog>, hsm: Seq<HsmLog>, rows: Seq<HsmLog>)
    requires
        logs_wf(fero, hsm),
        hsm.len() + rows.len() <= MAX_ROW_ID,
        forall|j: int| 0 <= j < rows.len() ==> (#[trigger] rows[j]).id == hsm.len() + j + 1,
        forall|j: int|
            0 <= j < rows.len() ==> last_index_of(hsm) < (#[trigger] rows[j]).hsm_index <= 0xffff,
        forall|a: int, b: int|
            0 <= a < b < rows.len() ==> (#[trigger] rows[a]).hsm_index < (
            #[trigger] rows[b]).hsm_index,
    ensures
        logs_wf(fero, hsm + rows),
        last_index_of(hsm) <= last_index_of(hsm + rows),
        forall|k: int|
            0 <= k < fero.len() ==> logs_in_range(
                hsm + rows,
                (#[trigger] fero[k]).hsm_index_start as int,
                fero[k].hsm_index_end as int,
            ) == logs_in_range(hsm, fero[k].hsm_index_start as int, fero[k].hsm_index_end as int),
{
    let all = hsm + rows;
    lemma_last_is_max(fero, hsm);
    assert forall|k: int| 0 <= k < fero.len() implies logs_in_range(
        all,
        (#[trigger] fero[k]).hsm_index_start as int,
        fero[k].hsm_index_end as int,
    ) == logs_in_range(hsm, fero[k].hsm_index_start as int, fero[k].hsm_index_end as int) by {
        let s = fero[k].hsm_index_start as int;
        let e = fero[k].hsm_index_end as int;
        lemma_range_append(hsm, rows, s, e);
        assert forall|j: int| 0 <= j < rows.len() implies !(s < (#[trigger] rows[j]).hsm_index as int
            <= e) by {}
        lemma_range_none(rows, s, e);
        assert(logs_in_range(hsm, s, e) + Seq::<HsmLog>::empty() =~= logs_in_range(hsm, s, e));
    }
    assert forall|i: int| 0 <= i < all.len() implies (#[trigger] all[i]).id == i + 1 by {
        if i >= hsm.len() {
            assert(all[i] == rows[i - hsm.len()]);
        }
    }
    assert forall|i: int| 0 <= i < all.len() implies 0 <= (#[trigger] all[i]).hsm_index <= 0xffff by {
        if i >= hsm.len() {
            assert(all[i] == rows[i - hsm.len()]);
        }
    }
    assert forall|i: int, j: int| 0 <= i < j < all.len() implies (#[trigger] all[i]).hsm_index < (
    #[trigger] all[j]).hsm_index by {
        if j < hsm.len() {
        } else if i < hsm.len() {
            assert(all[j] == rows[j - hsm.len()]);
        } else {
            assert(all[i] == rows[i - hsm.len()]);
            assert(all[j] == rows[j - hsm.len()]);
        }
    }
    assert(last_index_of(hsm) <= last_index_of(all)) by {
        if rows.len() > 0 {
            assert(all.last() == rows[rows.len() - 1]);
        }
    }
    assert forall|k: int| 1 <= k < fero.len() implies #[trigger] link_holds(fero, all, k) by {
        assert(link_holds(fero, hsm, k));
        assert(fero[k] == fero[k]);
    }
}

/// Appending an entry that lies within what is mirrored and links to the
/// last entry keeps the invariants of the logs.
proof fn lemma_push_keeps_logs_wf(fero: Seq<FeroLog>, hsm: Seq<HsmLog>, e: FeroLog)
    requires
        logs_wf(fero, hsm),
        fero.len() < MAX_ROW_ID,
        e.id == fero.len() + 1,
        0 <= e.hsm_index_start <= e.hsm_index_end <= last_index_of(hsm),
        fero.len() > 0 ==> link_holds(fero.push(e), hsm, fero.len() as int),
    ensures
        logs_wf(fero.push(e), hsm),
{
    let f = fero.push(e);
    assert forall|k: int| 0 <= k < f.len() implies (#[trigger] f[k]).id == k + 1 by {
        if k < fero.len() {
            assert(f[k] == fero[k]);
        }
    }
    assert forall|k: int| 0 <= k < f.len() implies 0 <= (#[trigger] f[k]).hsm_index_start
        <= f[k].hsm_index_end <= last_index_of(hsm) by {
        if k < fero.len() {
            assert(f[k] == fero[k]);
        }
    }
    assert forall|k: int| 1 <= k < f.len() implies #[trigger] link_holds(f, hsm, k) by {
        if k < fero.len() {
            assert(link_holds(fero, hsm, k));
            assert(f[k] == fero[k] && f[k - 1] == fero[k - 1]);
        }
    }
}

impl FeroLog {
    /// The stored form of a new entry, under row id `id`.
    pub fn from_new(n: NewFeroLog, id: i32) -> (r: FeroLog)
        ensures
            r == (FeroLog {
                id,
                request_type: n.request_type,
                timestamp: n.timestamp,
                result: n.result,
                hsm_index_start: n.hsm_index_start,
                hsm_index_end: n.hsm_index_end,
                identification: n.identification,
                hash: n.hash,
            }),
    {
        FeroLog {
            id,
            request_type: n.request_type,
            timestamp: n.timestamp,
            result: n.result,
            hsm_index_start: n.hsm_index_start,
            hsm_index_end: n.hsm_index_end,
            identification: n.identification,
            hash: n.hash,
        }
    }
}

} // verus!

verus! {

impl Configuration {
    /// Records an operation in the audit log. `mirror` holds the device's
    /// log entries after the last mirrored one, in the device's order: they
    /// are mirrored, a random first entry is written if the log is empty,
    /// and an entry for the operation is appended whose hash covers its
    /// contents, the mirrored entries and its predecessor's hash. Gives the
    /// device index up to which the device may now discard its log.
    pub fn append_operation(
        &mut self,
        request_type: OperationType,
        result: OperationResult,
        identification: Option<Vec<u8>>,
        timestamp: Timestamp,
        mirror: Vec<HsmLogEntry>,
    ) -> (r: Result<u16, LogAppendError>)
        requires
            old(self).wf(),
        ensures
            final(self).wf(),
            final(self).secrets == old(self).secrets,
            final(self).users == old(self).users,
            final(self).weights == old(self).weights,
            !rises_above(mirror@, last_index_of(old(self).hsm_logs@)) ==> r == Err::<
                u16,
                LogAppendError,
            >(LogAppendError::IndexNotAdvancing),
            old(self).appendable(mirror@) ==> r is Ok,
            r is Err ==> final(self).fero_logs == old(self).fero_logs && final(self).hsm_logs == old(
                self,
            ).hsm_logs,
            r is Ok ==> {
                let old_last = last_index_of(old(self).hsm_logs@);
                let new_last = r->Ok_0 as int;
                let n = old(self).hsm_logs@.len();
                let hsm = final(self).hsm_logs@;
                let f = final(self).fero_logs@;
                let e = f.last();
                &&& new_last == if mirror@.len() == 0 {
                    old_last
                } else {
                    mirror@.last().hsm_index as int
                }
                &&& hsm.len() == n + mirror@.len()
                &&& hsm.subrange(0, n as int) == old(self).hsm_logs@
                &&& records_of_rows(hsm.subrange(n as int, hsm.len() as int)) == records_of(mirror@)
                &&& f.len() == if old(self).fero_logs@.len() == 0 {
                    2
                } else {
                    old(self).fero_logs@.len() + 1
                }
                &&& old(self).fero_logs@.len() > 0 ==> f.drop_last() == old(self).fero_logs@
                &&& old(self).fero_logs@.len() == 0 ==> is_root_log(f[0])
                &&& e.id == f.len()
                &&& e.request_type == request_type
                &&& e.result == result
                &&& e.timestamp == timestamp
                &&& e.hsm_index_start == old_last
                &&& e.hsm_index_end == new_last
                &&& opt_bytes(e.identification) == opt_bytes(identification)
                &&& e.hash@.len() == FERO_LOG_HASH_LEN
                &&& e.hash@ == sha256_of(
                    fero_log_preimage(
                        request_type,
                        timestamp.seconds,
                        result,
                        records_of(mirror@),
                        opt_bytes(identification),
                        f[f.len() - 2].hash@,
                    ),
                )
                &&& records_of_rows(logs_in_range(hsm, old_last, new_last)) == records_of(mirror@)
            },
    {
        let last = self.last_hsm_index();
        if !Configuration::check_rises_above(mirror.as_slice(), last) {
            return Err(LogAppendError::IndexNotAdvancing);
        }
        if mirror.len() > MAX_ROW_ID || self.hsm_logs.len() > MAX_ROW_ID - mirror.len()
            || self.fero_logs.len() > MAX_ROW_ID - 2 {
            return Err(LogAppendError::Full);
        }
        let ghost old_hsm = self.hsm_logs@;
        let n = self.hsm_logs.len();
        let mut new_last: u16 = last;
        let mut i: usize = 0;
        while i < mirror.len()
            invariant
                n == old_hsm.len(),
                i <= mirror@.len(),
                n + mirror@.len() <= MAX_ROW_ID,
                rises_above(mirror@, last as int),
                last as int == last_index_of(old_hsm),
                self.hsm_logs@.len() == n + i,
                self.hsm_logs@.subrange(0, n as int) == old_hsm,
                forall|j: int|
                    0 <= j < i ==> (#[trigger] self.hsm_logs@[n + j]).record() == mirror@[j]@
                        && self.hsm_logs@[n + j].id == n + j + 1 && self.hsm_logs@[n + j].hsm_index
                        == mirror@[j].hsm_index as i32,
                new_last == if i == 0 {
                    last
                } else {
                    mirror@[i - 1].hsm_index
                },
                self.secrets == old(self).secrets,
                self.users == old(self).users,
                self.weights == old(self).weights,
                self.fero_logs == old(self).fero_logs,
            decreases mirror@.len() - i,
        {
            let row = NewHsmLog::from_entry(&mirror[i]);
            let ghost before = self.hsm_logs@;
            self.hsm_logs.push(
                HsmLog {
                    id: (n + i + 1) as i32,
                    hsm_index: row.hsm_index,
                    command: row.command,
                    data_length: row.data_length,
                    session_key: row.session_key,
                    target_key: row.target_key,
                    second_key: row.second_key,
                    result: row.result,
                    systick: row.systick,
                    hash: row.hash,
                },
            );
            assert(self.hsm_logs@.subrange(0, n as int) =~= old_hsm) by {
                assert(before.subrange(0, n as int) == old_hsm);
                assert forall|j: int| 0 <= j < n implies self.hsm_logs@[j] == before[j] by {}
            }
            new_last = mirror[i].hsm_index;
            i = i + 1;
        }
        let ghost rows = self.hsm_logs@.subrange(n as int, self.hsm_logs@.len() as int);
        proof {
            assert(self.hsm_logs@ =~= old_hsm + rows);
            assert forall|j: int| 0 <= j < rows.len() implies (#[trigger] rows[j]).id == old_hsm.len()
                + j + 1 && last_index_of(old_hsm) < rows[j].hsm_index <= 0xffff by {
                assert(rows[j] == self.hsm_logs@[n + j]);
            }
            assert forall|a: int, b: int| 0 <= a < b < rows.len() implies (
            #[trigger] rows[a]).hsm_index < (#[trigger] rows[b]).hsm_index by {
                assert(rows[a] == self.hsm_logs@[n + a]);
                assert(rows[b] == self.hsm_logs@[n + b]);
            }
            lemma_mirror_keeps_logs_wf(self.fero_logs@, old_hsm, rows);
            assert(records_of_rows(rows) =~= records_of(mirror@)) by {
                assert forall|j: int| 0 <= j < rows.len() implies records_of_rows(rows)[j] == records_of(
                    mirror@,
                )[j] by {
                    assert(rows[j] == self.hsm_logs@[n + j]);
                }
            }
            assert(new_last as int == last_index_of(self.hsm_logs@)) by {
                if rows.len() > 0 {
                    assert(self.hsm_logs@.last() == self.hsm_logs@[n + mirror@.len() - 1]);
                }
            }
            lemma_last_is_max(self.fero_logs@, old_hsm);
            lemma_range_append(old_hsm, rows, last as int, new_last as int);
            assert forall|j: int| 0 <= j < old_hsm.len() implies !(last < (
            #[trigger] old_hsm[j]).hsm_index as int <= new_last) by {}
            lemma_range_none(old_hsm, last as int, new_last as int);
            assert forall|j: int| 0 <= j < rows.len() implies last < (
            #[trigger] rows[j]).hsm_index as int <= new_last by {
                assert(rows[j] == self.hsm_logs@[n + j]);
                if j < rows.len() - 1 {
                    assert(rows[rows.len() - 1] == self.hsm_logs@[n + rows.len() - 1]);
                }
            }
            lemma_range_all(rows, last as int, new_last as int);
            assert(logs_in_range(self.hsm_logs@, last as int, new_last as int) =~= rows);
        }
        let ghost was_empty = self.fero_logs@.len() == 0;
        if self.fero_logs.len() == 0 {
            let root = FeroLog::from_new(NewFeroLog::root(), 1);
            proof {
                lemma_push_keeps_logs_wf(self.fero_logs@, self.hsm_logs@, root);
            }
            self.fero_logs.push(root);
        }
        let k = self.fero_logs.len();
        let entry = FeroLogEntry {
            request_type,
            timestamp,
            result,
            hsm_logs: mirror,
            identification,
            hash: Vec::new(),
        };
        let hash = entry.hash(self.fero_logs[k - 1].hash.as_slice());
        let new_entry = FeroLog {
            id: (k + 1) as i32,
            request_type,
            timestamp,
            result,
            hsm_index_start: last as i32,
            hsm_index_end: new_last as i32,
            identification: entry.identification,
            hash,
        };
        proof {
            let f = self.fero_logs@.push(new_entry);
            assert(f[k as int] == new_entry && f[k - 1] == self.fero_logs@[k - 1]);
            assert(stored_preimage(f, self.hsm_logs@, k as int) == entry.preimage(
                self.fero_logs@[k - 1].hash@,
            ));
            lemma_push_keeps_logs_wf(self.fero_logs@, self.hsm_logs@, new_entry);
        }
        let ghost before_push = self.fero_logs@;
        self.fero_logs.push(new_entry);
        assert(was_empty ==> self.fero_logs@[0] == before_push[0]);
        Ok(new_last)
    }
}

} // verus!

verus! {

/// A service log entry as handed out: its row id and its contents with the
/// device entries that it covers.
#[derive(Clone, Debug)]
pub struct LogEntry {
    pub id: i32,
    pub entry: FeroLogEntry,
}

/// A fresh copy of optional bytes.
pub fn copy_opt_bytes(o: &Option<Vec<u8>>) -> (r: Option<Vec<u8>>)
    ensures
        opt_bytes(r) == opt_bytes(*o),
{
    match o {
        Some(v) => Some(copy_bytes(v.as_slice())),
        None => None,
    }
}

impl Configuration {
    /// Whether `x` holds the service entry at position `k` with the device
    /// entries that it covers.
    pub open spec fn is_log_of(&self, x: FeroLogEntry, k: int) -> bool {
        let e = self.fero_logs@[k];
        &&& x.request_type == e.request_type
        &&& x.timestamp == e.timestamp
        &&& x.result == e.result
        &&& records_of(x.hsm_logs@) == records_of_rows(
            logs_in_range(self.hsm_logs@, e.hsm_index_start as int, e.hsm_index_end as int),
        )
        &&& opt_bytes(x.identification) == opt_bytes(e.identification)
        &&& x.hash@ == e.hash@
    }

    /// The mirrored device entries whose index lies above `hsm_index_start`
    /// and up to `hsm_index_end` of `fero_log`, in ascending order.
    pub fn associated_hsm_logs(&self, fero_log: &FeroLog) -> (r: Vec<HsmLogEntry>)
        ensures
            records_of(r@) == records_of_rows(
                logs_in_range(
                    self.hsm_logs@,
                    fero_log.hsm_index_start as int,
                    fero_log.hsm_index_end as int,
                ),
            ),
    {
        let start = fero_log.hsm_index_start;
        let end = fero_log.hsm_index_end;
        let mut out: Vec<HsmLogEntry> = Vec::new();
        let mut i: usize = 0;
        while i < self.hsm_logs.len()
            invariant
                i <= self.hsm_logs@.len(),
                records_of(out@) == records_of_rows(
                    logs_in_range(self.hsm_logs@.subrange(0, i as int), start as int, end as int),
                ),
            decreases self.hsm_logs@.len() - i,
        {
            let row = &self.hsm_logs[i];
            let ghost before = out@;
            if start < row.hsm_index && row.hsm_index <= end {
                out.push(row.to_entry());
            }
            proof {
                let pre = self.hsm_logs@.subrange(0, i + 1);
                assert(pre.drop_last() =~= self.hsm_logs@.subrange(0, i as int));
                assert(pre.last() == self.hsm_logs@[i as int]);
                let prev = logs_in_range(self.hsm_logs@.subrange(0, i as int), start as int, end as int);
                if start < row.hsm_index && row.hsm_index <= end {
                    assert(logs_in_range(pre, start as int, end as int) == prev + seq![*row]);
                    assert(out@ == before.push(out@.last()));
                    assert(records_of(out@) =~= records_of(before).push(row.record()));
                    assert(records_of_rows(prev + seq![*row]) =~= records_of_rows(prev).push(
                        row.record(),
                    ));
                } else {
                    assert(logs_in_range(pre, start as int, end as int) =~= prev);
                }
            }
            i = i + 1;
        }
        assert(self.hsm_logs@.subrange(0, i as int) =~= self.hsm_logs@);
        out
    }

    /// The service entry at position `k` with the device entries that it
    /// covers.
    pub fn log_entry(&self, k: usize) -> (r: FeroLogEntry)
        requires
            k < self.fero_logs@.len(),
        ensures
            self.is_log_of(r, k as int),
    {
        let e = &self.fero_logs[k];
        FeroLogEntry {
            request_type: e.request_type,
            timestamp: e.timestamp,
            result: e.result,
            hsm_logs: self.associated_hsm_logs(e),
            identification: copy_opt_bytes(&e.identification),
            hash: copy_bytes(e.hash.as_slice()),
        }
    }

    /// The service entries with an id above `min_index`, in ascending order
    /// of id, each with the device entries that it covers.
    pub fn get_logs(&self, min_index: i32) -> (r: Vec<LogEntry>)
        requires
            self.wf(),
        ensures
            ({
                let n = self.fero_logs@.len() as int;
                let start = if min_index < 0 {
                    0
                } else if min_index > n {
                    n
                } else {
                    min_index as int
                };
                &&& r@.len() == n - start
                &&& forall|i: int|
                    0 <= i < r@.len() ==> (#[trigger] r@[i]).id == start + i + 1 && self.is_log_of(
                        r@[i].entry,
                        start + i,
                    )
            }),
    {
        let n = self.fero_logs.len();
        let start: usize = if min_index < 0 {
            0
        } else if min_index as usize > n {
            n
        } else {
            min_index as usize
        };
        let mut out: Vec<LogEntry> = Vec::new();
        let mut k: usize = start;
        while k < n
            invariant
                start <= k <= n,
                n == self.fero_logs@.len(),
                n <= MAX_ROW_ID,
                out@.len() == k - start,
                forall|i: int|
                    0 <= i < out@.len() ==> (#[trigger] out@[i]).id == start + i + 1
                        && self.is_log_of(out@[i].entry, start + i),
            decreases n - k,
        {
            let entry = self.log_entry(k);
            out.push(LogEntry { id: (k + 1) as i32, entry });
            k = k + 1;
        }
        out
    }
}

/// A run of service entries read in order from a well-formed store passes
/// the chain check: every entry after the first carries the hash of its
/// contents chained onto the hash of the entry before it.
pub proof fn lemma_retrieved_logs_verify(store: Configuration, entries: Seq<FeroLogEntry>, start: int)
    requires
        store.wf(),
        0 <= start,
        start + entries.len() <= store.fero_logs@.len(),
        forall|i: int| 0 <= i < entries.len() ==> store.is_log_of(#[trigger] entries[i], start + i),
    ensures
        chain_links(entries),
{
    assert forall|j: int| 1 <= j < entries.len() implies (#[trigger] entries[j]).links_to(
        entries[j - 1].hash@,
    ) by {
        assert(store.is_log_of(entries[j], start + j));
        assert(store.is_log_of(entries[j - 1], start + j - 1));
        assert(link_holds(store.fero_logs@, store.hsm_logs@, start + j));
    }
}

} // verus!

verus! {

impl Configuration {
    /// Logs an operation: appends one entry for it, as `append_operation`
    /// does, and gives the device index up to which the device may discard
    /// its log.
    pub fn log_operation(
        &mut self,
        request_type: OperationType,
        result: OperationResult,
        identification: Option<Vec<u8>>,
        timestamp: Timestamp,
        mirror: Vec<HsmLogEntry>,
    ) -> (r: Result<u16, LogAppendError>)
        requires
            old(self).wf(),
        ensures
            final(self).wf(),
            final(self).secrets == old(self).secrets,
            final(self).users == old(self).users,
            final(self).weights == old(self).weights,
            old(self).appendable(mirror@) ==> r is Ok,
            r is Err ==> logs_kept(*old(self), *final(self)),
            r is Ok ==> operation_logged(*old(self), *final(self)),
            r is Ok ==> {
                let f = final(self).fero_logs@;
                &&& f.last().request_type == request_type
                &&& f.last().result == result
                &&& f.last().timestamp == timestamp
                &&& opt_bytes(f.last().identification) == opt_bytes(identification)
                &&& f.last().hash@.len() == FERO_LOG_HASH_LEN
            },
    {
        let ghost before = *self;
        let r = self.append_operation(request_type, result, identification, timestamp, mirror);
        proof {
            if r is Ok {
                let f = self.fero_logs@;
                if before.fero_logs@.len() == 0 {
                    assert(is_root_log(f[0]));
                } else {
                    assert(f.drop_last() == before.fero_logs@);
                }
                assert(self.hsm_logs@.subrange(0, before.hsm_logs@.len() as int)
                    == before.hsm_logs@);
            }
        }
        r
    }
}

} // verus!
