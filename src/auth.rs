//! Admission of a request by a weighted quorum of verified signers.
use vstd::prelude::*;
use vstd::utf8::encode_utf8;

use crate::hex::{u64_from_hex, u64_of_hex};
use crate::store::{copy_bytes, users_wf, weights_wf, SecretKey, Configuration, UserKey, UserKeyWeight};

verus! {

/// The summary bit of a signature that is fully valid.
pub const SUMMARY_VALID: u32 = 0x0001;

/// The summary bit of a signature that is valid and trusted.
pub const SUMMARY_GREEN: u32 = 0x0002;

/// What the PGP verifier reported of one detached signature: the bits of
/// its summary, and the hexadecimal key id of the signer's key if the
/// keyring holds that key.
#[derive(Clone, Debug)]
pub struct SignatureCheck {
    pub summary: u32,
    pub signer_key_id: Option<String>,
}

/// Whether a signature with this summary counts. A fresh keyring trusts no
/// key, so a good signature has an empty summary; any other summary but
/// exactly `GREEN` or exactly `VALID` marks a signature that is bad, for
/// instance one over another payload.
pub open spec fn summary_counts(summary: u32) -> bool {
    summary == 0 || summary == SUMMARY_GREEN || summary == SUMMARY_VALID
}

/// Whether a checked signature names a signer that counts.
pub open spec fn counted(c: SignatureCheck) -> bool {
    summary_counts(c.summary) && c.signer_key_id is Some
}

/// The key ids, in stored form, of the signers of the signatures that
/// count, in order and with repeats; none if one of them is not a
/// hexadecimal `u64`.
pub open spec fn signer_ids(checks: Seq<SignatureCheck>) -> Option<Seq<i64>>
    decreases checks.len(),
{
    if checks.len() == 0 {
        Some(Seq::empty())
    } else {
        match signer_ids(checks.drop_last()) {
            None => None,
            Some(ids) => {
                let c = checks.last();
                if counted(c) {
                    match u64_of_hex(encode_utf8(c.signer_key_id->Some_0@)) {
                        Some(v) => Some(ids.push(v as i64)),
                        None => None,
                    }
                } else {
                    Some(ids)
                }
            },
        }
    }
}

} // verus!

verus! {

/// The first occurrence of each id, in order.
pub open spec fn unique_ids(ids: Seq<i64>) -> Seq<i64>
    decreases ids.len(),
{
    if ids.len() == 0 {
        Seq::empty()
    } else {
        let d = unique_ids(ids.drop_last());
        if d.contains(ids.last()) {
            d
        } else {
            d.push(ids.last())
        }
    }
}

/// Whether the user at position `u` has key id `key_id` and the weight row
/// at position `w` is theirs for the secret `secret_id`.
pub open spec fn weight_row_of(
    users: Seq<UserKey>,
    weights: Seq<UserKeyWeight>,
    secret_id: i32,
    key_id: i64,
    u: int,
    w: int,
) -> bool {
    &&& 0 <= u < users.len()
    &&& 0 <= w < weights.len()
    &&& users[u].key_id == key_id
    &&& weights[w].user_id == users[u].id
    &&& weights[w].secret_id == secret_id
}

/// How much the signer with key id `key_id` counts towards the secret
/// `secret_id`: the weight of their row, or 0 if they are no user or have no
/// row for it.
pub open spec fn weight_of(
    users: Seq<UserKey>,
    weights: Seq<UserKeyWeight>,
    secret_id: i32,
    key_id: i64,
) -> int {
    if exists|u: int, w: int| weight_row_of(users, weights, secret_id, key_id, u, w) {
        let (u, w) = choose|u: int, w: int| weight_row_of(users, weights, secret_id, key_id, u, w);
        weights[w].weight as int
    } else {
        0
    }
}

/// The sum of the weights of the signers `ids` towards the secret
/// `secret_id`.
pub open spec fn total_weight(
    users: Seq<UserKey>,
    weights: Seq<UserKeyWeight>,
    secret_id: i32,
    ids: Seq<i64>,
) -> int
    decreases ids.len(),
{
    if ids.len() == 0 {
        0
    } else {
        total_weight(users, weights, secret_id, ids.drop_last()) + weight_of(
            users,
            weights,
            secret_id,
            ids.last(),
        )
    }
}

/// Why a request was not admitted.
#[derive(Clone, Copy, Debug, PartialEq, Eq, Structural)]
pub enum AuthError {
    /// No secret of the requested name is stored.
    UnknownSecret,
    /// The verifier gave a signer key id that is not a hexadecimal `u64`.
    BadKeyId,
    /// The unique signers' weights sum to less than the threshold.
    InsufficientWeight,
}

/// Access to one secret, granted by a quorum of its key holders.
#[derive(Clone, Debug)]
pub struct AuthenticatedConnection {
    /// The PGP key id of the secret, if it was imported from a PGP packet.
    pub secret_key: Option<u64>,
    pub secret_name: String,
    /// The device's object id of the secret's key.
    pub hsm_id: i32,
}

impl AuthenticatedConnection {
    /// The PGP key id of the secret, if it has one.
    pub fn get_pgp_key_id(&self) -> (r: Option<u64>)
        ensures
            r == self.secret_key,
    {
        self.secret_key
    }

    /// The device's object id of the secret's key.
    pub fn get_hsm_key_id(&self) -> (r: u16)
        ensures
            r == self.hsm_id as u16,
    {
        self.hsm_id as u16
    }
}

/// The key ids of the signers that count, in order and with repeats.
pub fn collect_signer_ids(checks: &[SignatureCheck]) -> (r: Result<Vec<i64>, AuthError>)
    ensures
        r is Err <==> signer_ids(checks@) is None,
        r is Err ==> r == Err::<Vec<i64>, AuthError>(AuthError::BadKeyId),
        r is Ok ==> Some(r->Ok_0@) == signer_ids(checks@),
{
    let mut ids: Vec<i64> = Vec::new();
    let mut i: usize = 0;
    while i < checks.len()
        invariant
            i <= checks@.len(),
            signer_ids(checks@.subrange(0, i as int)) == Some(ids@),
        decreases checks@.len() - i,
    {
        let c = &checks[i];
        proof {
            assert(checks@.subrange(0, i + 1).drop_last() =~= checks@.subrange(0, i as int));
            assert(checks@.subrange(0, i + 1).last() == checks@[i as int]);
        }
        if c.summary == 0 || c.summary == SUMMARY_GREEN || c.summary == SUMMARY_VALID {
            match &c.signer_key_id {
                Some(key) => match u64_from_hex(key.as_str()) {
                    Some(v) => ids.push(v as i64),
                    None => {
                        proof {
                            lemma_signer_ids_none_extends(checks@, i as int + 1);
                        }
                        return Err(AuthError::BadKeyId);
                    },
                },
                None => {},
            }
        }
        i = i + 1;
    }
    assert(checks@.subrange(0, i as int) =~= checks@);
    Ok(ids)
}

/// Once a prefix of the checks holds a bad key id, so do all of them.
proof fn lemma_signer_ids_none_extends(checks: Seq<SignatureCheck>, k: int)
    requires
        0 <= k <= checks.len(),
        signer_ids(checks.subrange(0, k)) is None,
    ensures
        signer_ids(checks) is None,
    decreases checks.len() - k,
{
    if k < checks.len() {
        assert(checks.subrange(0, k + 1).drop_last() =~= checks.subrange(0, k));
        lemma_signer_ids_none_extends(checks, k + 1);
    } else {
        assert(checks.subrange(0, k) =~= checks);
    }
}

/// The first occurrence of each id of `ids`, in order.
pub fn dedup_ids(ids: &[i64]) -> (r: Vec<i64>)
    ensures
        r@ == unique_ids(ids@),
{
    let mut out: Vec<i64> = Vec::new();
    let mut i: usize = 0;
    while i < ids.len()
        invariant
            i <= ids@.len(),
            out@ == unique_ids(ids@.subrange(0, i as int)),
        decreases ids@.len() - i,
    {
        let id = ids[i];
        let mut seen = false;
        let mut j: usize = 0;
        while j < out.len()
            invariant
                j <= out@.len(),
                seen <==> out@.subrange(0, j as int).contains(id),
            decreases out@.len() - j,
        {
            if out[j] == id {
                seen = true;
            }
            proof {
                let s = out@.subrange(0, j + 1);
                if seen {
                    if out@[j as int] == id {
                        assert(s[j as int] == id);
                    } else {
                        let k = choose|k: int| 0 <= k < j && out@.subrange(0, j as int)[k] == id;
                        assert(s[k] == id);
                    }
                } else {
                    assert forall|k: int| 0 <= k < s.len() implies s[k] != id by {
                        if k < j {
                            assert(out@.subrange(0, j as int)[k] == s[k]);
                        }
                    }
                }
            }
            j = j + 1;
        }
        proof {
            assert(out@.subrange(0, j as int) =~= out@);
            assert(ids@.subrange(0, i + 1).drop_last() =~= ids@.subrange(0, i as int));
            assert(ids@.subrange(0, i + 1).last() == id);
        }
        if !seen {
            out.push(id);
        }
        i = i + 1;
    }
    assert(ids@.subrange(0, i as int) =~= ids@);
    out
}

} // verus!

verus! {

/// Whether the user at position `u` has a weight row for the secret.
pub open spec fn has_weight_row(users: Seq<UserKey>, weights: Seq<UserKeyWeight>, secret_id: i32, u: int) -> bool {
    exists|w: int|
        0 <= w < weights.len() && (#[trigger] weights[w]).user_id == users[u].id
            && weights[w].secret_id == secret_id
}

/// The public keys of the users with a weight row for the secret, in the
/// order of the users.
pub open spec fn applicable_keys(users: Seq<UserKey>, weights: Seq<UserKeyWeight>, secret_id: i32) -> Seq<Seq<u8>>
    decreases users.len(),
{
    if users.len() == 0 {
        Seq::empty()
    } else {
        let rest = applicable_keys(users.drop_last(), weights, secret_id);
        if has_weight_row(users, weights, secret_id, users.len() - 1) {
            rest.push(users.last().key_data@)
        } else {
            rest
        }
    }
}

impl Configuration {
    /// How much the signer with key id `key_id` counts towards the secret
    /// `secret_id`.
    pub fn signer_weight(&self, secret_id: i32, key_id: i64) -> (r: i32)
        requires
            users_wf(self.users@),
            weights_wf(self.weights@),
        ensures
            r as int == weight_of(self.users@, self.weights@, secret_id, key_id),
    {
        let u = match self.find_user(key_id) {
            Some(u) => u,
            None => {
                assert(!exists|u: int, w: int|
                    weight_row_of(self.users@, self.weights@, secret_id, key_id, u, w)) by {
                    if exists|u: int, w: int|
                        weight_row_of(self.users@, self.weights@, secret_id, key_id, u, w) {
                        let (u, w) = choose|u: int, w: int|
                            weight_row_of(self.users@, self.weights@, secret_id, key_id, u, w);
                        assert(self.users@[u].key_id == key_id);
                    }
                }
                return 0;
            },
        };
        let user_id = self.users[u].id;
        match self.find_weight(user_id, secret_id) {
            Some(w) => {
                assert(weight_row_of(self.users@, self.weights@, secret_id, key_id, u as int, w as int));
                let ghost (cu, cw) = choose|cu: int, cw: int|
                    weight_row_of(self.users@, self.weights@, secret_id, key_id, cu, cw);
                assert(self.users@[cu].key_id == key_id);
                assert(cu == u);
                assert(cw == w);
                self.weights[w].weight
            },
            None => {
                assert(!exists|cu: int, cw: int|
                    weight_row_of(self.users@, self.weights@, secret_id, key_id, cu, cw)) by {
                    if exists|cu: int, cw: int|
                        weight_row_of(self.users@, self.weights@, secret_id, key_id, cu, cw) {
                        let (cu, cw) = choose|cu: int, cw: int|
                            weight_row_of(self.users@, self.weights@, secret_id, key_id, cu, cw);
                        assert(self.users@[cu].key_id == key_id);
                        assert(cu == u);
                        assert(self.weights@[cw].user_id == user_id);
                    }
                }
                0
            },
        }
    }

    /// The sum of the weights of the signers `ids` towards the secret
    /// `secret_id`.
    pub fn sum_weights(&self, secret_id: i32, ids: &[i64]) -> (r: i128)
        requires
            users_wf(self.users@),
            weights_wf(self.weights@),
        ensures
            r as int == total_weight(self.users@, self.weights@, secret_id, ids@),
    {
        let mut total: i128 = 0;
        let mut i: usize = 0;
        while i < ids.len()
            invariant
                i <= ids@.len(),
                users_wf(self.users@),
                weights_wf(self.weights@),
                total as int == total_weight(
                    self.users@,
                    self.weights@,
                    secret_id,
                    ids@.subrange(0, i as int),
                ),
                -(i as int) * 0x8000_0000 <= total <= (i as int) * 0x8000_0000,
            decreases ids@.len() - i,
        {
            let w = self.signer_weight(secret_id, ids[i]);
            proof {
                assert(ids@.subrange(0, i + 1).drop_last() =~= ids@.subrange(0, i as int));
                assert(ids@.subrange(0, i + 1).last() == ids@[i as int]);
            }
            total = total + w as i128;
            i = i + 1;
        }
        assert(ids@.subrange(0, i as int) =~= ids@);
        total
    }

    /// The public keys of the users with a weight row for the secret named
    /// `secret_name`: the keys that the verifier needs.
    pub fn applicable_user_keys(&self, secret_name: &String) -> (r: Result<Vec<Vec<u8>>, AuthError>)
        ensures
            r is Err <==> !self.has_secret(secret_name@),
            r is Err ==> r == Err::<Vec<Vec<u8>>, AuthError>(AuthError::UnknownSecret),
            r is Ok ==> exists|s: int|
                0 <= s < self.secrets@.len() && (#[trigger] self.secrets@[s]).name@ == secret_name@
                    && r->Ok_0@.map_values(|k: Vec<u8>| k@) == applicable_keys(
                    self.users@,
                    self.weights@,
                    self.secrets@[s].id,
                ),
    {
        let s = match self.find_secret(secret_name) {
            Some(s) => s,
            None => return Err(AuthError::UnknownSecret),
        };
        let secret_id = self.secrets[s].id;
        let mut keys: Vec<Vec<u8>> = Vec::new();
        let mut i: usize = 0;
        while i < self.users.len()
            invariant
                i <= self.users@.len(),
                keys@.map_values(|k: Vec<u8>| k@) == applicable_keys(
                    self.users@.subrange(0, i as int),
                    self.weights@,
                    secret_id,
                ),
            decreases self.users@.len() - i,
        {
            let found = self.find_weight(self.users[i].id, secret_id);
            let ghost before = keys@;
            if found.is_some() {
                keys.push(copy_bytes(self.users[i].key_data.as_slice()));
            }
            proof {
                let pre = self.users@.subrange(0, i + 1);
                assert(pre.drop_last() =~= self.users@.subrange(0, i as int));
                assert(pre.last() == self.users@[i as int]);
                assert(has_weight_row(pre, self.weights@, secret_id, i as int) == found is Some) by {
                    if found is Some {
                        assert(self.weights@[found->Some_0 as int].user_id == pre[i as int].id);
                    }
                }
                assert(keys@.map_values(|k: Vec<u8>| k@) =~= applicable_keys(
                    pre,
                    self.weights@,
                    secret_id,
                ));
            }
            i = i + 1;
        }
        assert(self.users@.subrange(0, i as int) =~= self.users@);
        Ok(keys)
    }
}

} // verus!

verus! {

/// Whether the checked signatures admit a request on `secret`: their key
/// ids are readable, and the weights of the unique signers that count sum
/// to at least the secret's threshold.
pub open spec fn admits(
    users: Seq<UserKey>,
    weights: Seq<UserKeyWeight>,
    secret: SecretKey,
    checks: Seq<SignatureCheck>,
) -> bool {
    match signer_ids(checks) {
        Some(ids) => total_weight(users, weights, secret.id, unique_ids(ids)) >= secret.threshold,
        None => false,
    }
}

impl Configuration {
    /// Admits a request on the secret named `secret_name` if the signatures,
    /// as the verifier checked them against the request's canonical payload,
    /// come from signers whose weights for that secret, each signer counted
    /// once, sum to at least its threshold.
    pub fn authenticate(&self, secret_name: &String, checks: &[SignatureCheck]) -> (r: Result<
        AuthenticatedConnection,
        AuthError,
    >)
        requires
            self.wf(),
        ensures
            !self.has_secret(secret_name@) ==> r == Err::<AuthenticatedConnection, AuthError>(
                AuthError::UnknownSecret,
            ),
            forall|s: int|
                0 <= s < self.secrets@.len() && (#[trigger] self.secrets@[s]).name@ == secret_name@
                    ==> {
                    let secret = self.secrets@[s];
                    &&& r is Ok <==> admits(self.users@, self.weights@, secret, checks@)
                    &&& signer_ids(checks@) is None ==> r == Err::<
                        AuthenticatedConnection,
                        AuthError,
                    >(AuthError::BadKeyId)
                    &&& signer_ids(checks@) is Some && !admits(
                        self.users@,
                        self.weights@,
                        secret,
                        checks@,
                    ) ==> r == Err::<AuthenticatedConnection, AuthError>(
                        AuthError::InsufficientWeight,
                    )
                    &&& r is Ok ==> {
                        let h = r->Ok_0;
                        &&& h.secret_name@ == secret_name@
                        &&& h.hsm_id == secret.hsm_id
                        &&& h.secret_key == match secret.key_id {
                            Some(k) => Some(k as u64),
                            None => None,
                        }
                    }
                },
    {
        let s = match self.find_secret(secret_name) {
            Some(s) => s,
            None => return Err(AuthError::UnknownSecret),
        };
        proof {
            assert forall|t: int|
                0 <= t < self.secrets@.len() && (#[trigger] self.secrets@[t]).name@
                    == secret_name@ implies t == s by {}
        }
        let secret = &self.secrets[s];
        let ids = match collect_signer_ids(checks) {
            Ok(ids) => ids,
            Err(e) => return Err(e),
        };
        let unique = dedup_ids(ids.as_slice());
        let total = self.sum_weights(secret.id, unique.as_slice());
        if total >= secret.threshold as i128 {
            Ok(
                AuthenticatedConnection {
                    secret_key: match secret.key_id {
                        Some(k) => Some(k as u64),
                        None => None,
                    },
                    secret_name: secret.name.clone(),
                    hsm_id: secret.hsm_id,
                },
            )
        } else {
            Err(AuthError::InsufficientWeight)
        }
    }
}

/// A signer who is no user, or a user without a weight row for the
/// secret, adds nothing to the sum.
pub proof fn lemma_unweighted_signer_counts_zero(
    users: Seq<UserKey>,
    weights: Seq<UserKeyWeight>,
    secret_id: i32,
    key_id: i64,
)
    requires
        users_wf(users),
        (forall|u: int| 0 <= u < users.len() ==> (#[trigger] users[u]).key_id != key_id) || (
        exists|u: int|
            0 <= u < users.len() && (#[trigger] users[u]).key_id == key_id && !has_weight_row(
                users,
                weights,
                secret_id,
                u,
            )),
    ensures
        weight_of(users, weights, secret_id, key_id) == 0,
{
    if exists|u: int, w: int| weight_row_of(users, weights, secret_id, key_id, u, w) {
        let (u, w) = choose|u: int, w: int| weight_row_of(users, weights, secret_id, key_id, u, w);
        assert(users[u].key_id == key_id);
        if exists|v: int|
            0 <= v < users.len() && (#[trigger] users[v]).key_id == key_id && !has_weight_row(
                users,
                weights,
                secret_id,
                v,
            ) {
            let v = choose|v: int|
                0 <= v < users.len() && (#[trigger] users[v]).key_id == key_id && !has_weight_row(
                    users,
                    weights,
                    secret_id,
                    v,
                );
            assert(v == u);
            assert(weights[w].user_id == users[v].id);
        }
    }
}

/// When no weight for the secret is negative, the sum over any signers is
/// not negative.
pub proof fn lemma_total_weight_nonnegative(
    users: Seq<UserKey>,
    weights: Seq<UserKeyWeight>,
    secret_id: i32,
    ids: Seq<i64>,
)
    requires
        forall|w: int|
            0 <= w < weights.len() && (#[trigger] weights[w]).secret_id == secret_id ==> weights[w].weight
                >= 0,
    ensures
        total_weight(users, weights, secret_id, ids) >= 0,
    decreases ids.len(),
{
    if ids.len() > 0 {
        lemma_total_weight_nonnegative(users, weights, secret_id, ids.drop_last());
        if exists|u: int, w: int| weight_row_of(users, weights, secret_id, ids.last(), u, w) {
            let (u, w) = choose|u: int, w: int|
                weight_row_of(users, weights, secret_id, ids.last(), u, w);
            assert(weights[w].secret_id == secret_id);
        }
    }
}

/// A secret whose threshold is 0 admits a request that carries no
/// signature.
pub proof fn lemma_zero_threshold_admits_unsigned(
    users: Seq<UserKey>,
    weights: Seq<UserKeyWeight>,
    secret: SecretKey,
)
    requires
        secret.threshold == 0,
    ensures
        admits(users, weights, secret, Seq::empty()),
{
    assert(unique_ids(Seq::<i64>::empty()) =~= Seq::<i64>::empty());
}

/// A secret whose threshold is 0 admits every request whose signer key ids
/// are readable, as long as no weight for it is negative.
pub proof fn lemma_zero_threshold_admits(
    users: Seq<UserKey>,
    weights: Seq<UserKeyWeight>,
    secret: SecretKey,
    checks: Seq<SignatureCheck>,
)
    requires
        secret.threshold == 0,
        signer_ids(checks) is Some,
        forall|w: int|
            0 <= w < weights.len() && (#[trigger] weights[w]).secret_id == secret.id ==> weights[w].weight
                >= 0,
    ensures
        admits(users, weights, secret, checks),
{
    lemma_total_weight_nonnegative(users, weights, secret.id, unique_ids(signer_ids(checks)->Some_0));
}

} // verus!

verus! {

/// Every id that occurs keeps an occurrence among the unique ids.
proof fn lemma_unique_ids_keeps(ids: Seq<i64>, x: i64)
    requires
        ids.contains(x),
    ensures
        unique_ids(ids).contains(x),
    decreases ids.len(),
{
    let d = unique_ids(ids.drop_last());
    if ids.last() == x {
        if !d.contains(x) {
            assert(d.push(x)[d.len() as int] == x);
        }
    } else {
        let i = choose|i: int| 0 <= i < ids.len() && ids[i] == x;
        assert(ids.drop_last()[i] == x);
        lemma_unique_ids_keeps(ids.drop_last(), x);
        if !d.contains(ids.last()) {
            let j = choose|j: int| 0 <= j < d.len() && d[j] == x;
            assert(d.push(ids.last())[j] == x);
        }
    }
}

/// A signature that counts, among checks whose key ids are all readable,
/// has its signer among their ids.
proof fn lemma_counted_signer_listed(checks: Seq<SignatureCheck>, i: int)
    requires
        0 <= i < checks.len(),
        counted(checks[i]),
        signer_ids(checks) is Some,
    ensures
        u64_of_hex(encode_utf8(checks[i].signer_key_id->Some_0@)) is Some,
        signer_ids(checks)->Some_0.contains(
            u64_of_hex(encode_utf8(checks[i].signer_key_id->Some_0@))->Some_0 as i64,
        ),
    decreases checks.len(),
{
    let ids = signer_ids(checks)->Some_0;
    let rest = signer_ids(checks.drop_last());
    if i == checks.len() - 1 {
        let v = u64_of_hex(encode_utf8(checks[i].signer_key_id->Some_0@))->Some_0 as i64;
        assert(ids == rest->Some_0.push(v));
        assert(ids[ids.len() - 1] == v);
    } else {
        assert(checks.drop_last()[i] == checks[i]);
        lemma_counted_signer_listed(checks.drop_last(), i);
        let v = u64_of_hex(encode_utf8(checks[i].signer_key_id->Some_0@))->Some_0 as i64;
        let j = choose|j: int| 0 <= j < rest->Some_0.len() && rest->Some_0[j] == v;
        if counted(checks.last()) {
            assert(ids == rest->Some_0.push(
                u64_of_hex(encode_utf8(checks.last().signer_key_id->Some_0@))->Some_0 as i64,
            ));
            assert(ids[j] == v);
        } else {
            assert(ids == rest->Some_0);
        }
    }
}

/// Presenting one of the signatures again changes nothing: each signer
/// counts once, however many of their signatures come.
pub proof fn lemma_repeated_signature_counts_once(
    users: Seq<UserKey>,
    weights: Seq<UserKeyWeight>,
    secret: SecretKey,
    checks: Seq<SignatureCheck>,
    i: int,
)
    requires
        0 <= i < checks.len(),
    ensures
        admits(users, weights, secret, checks.push(checks[i])) == admits(
            users,
            weights,
            secret,
            checks,
        ),
{
    let more = checks.push(checks[i]);
    assert(more.drop_last() =~= checks);
    assert(more.last() == checks[i]);
    if counted(checks[i]) && signer_ids(checks) is Some {
        lemma_counted_signer_listed(checks, i);
        let ids = signer_ids(checks)->Some_0;
        let v = u64_of_hex(encode_utf8(checks[i].signer_key_id->Some_0@))->Some_0 as i64;
        assert(signer_ids(more) == Some(ids.push(v)));
        lemma_unique_ids_keeps(ids, v);
        assert(ids.push(v).drop_last() =~= ids);
        assert(unique_ids(ids.push(v)) == unique_ids(ids));
    }
}

} // verus!

verus! {

/// Adding a signature whose signer is no user, or a user without a weight
/// row for the secret, leaves admission as it was, as long as the signer's
/// key id is readable: such a signer adds nothing, never a negative amount.
pub proof fn lemma_unweighted_signature_changes_nothing(
    users: Seq<UserKey>,
    weights: Seq<UserKeyWeight>,
    secret: SecretKey,
    checks: Seq<SignatureCheck>,
    c: SignatureCheck,
)
    requires
        users_wf(users),
        counted(c) ==> u64_of_hex(encode_utf8(c.signer_key_id->Some_0@)) is Some,
        counted(c) ==> {
            let v = u64_of_hex(encode_utf8(c.signer_key_id->Some_0@))->Some_0 as i64;
            (forall|u: int| 0 <= u < users.len() ==> (#[trigger] users[u]).key_id != v) || (exists|
                u: int,
            |
                0 <= u < users.len() && (#[trigger] users[u]).key_id == v && !has_weight_row(
                    users,
                    weights,
                    secret.id,
                    u,
                ))
        },
    ensures
        admits(users, weights, secret, checks.push(c)) == admits(users, weights, secret, checks),
{
    let more = checks.push(c);
    assert(more.drop_last() =~= checks);
    assert(more.last() == c);
    if counted(c) && signer_ids(checks) is Some {
        let ids = signer_ids(checks)->Some_0;
        let v = u64_of_hex(encode_utf8(c.signer_key_id->Some_0@))->Some_0 as i64;
        lemma_unweighted_signer_counts_zero(users, weights, secret.id, v);
        assert(signer_ids(more) == Some(ids.push(v)));
        let longer = ids.push(v);
        assert(longer.drop_last() =~= ids);
        assert(longer.last() == v);
        let d = unique_ids(ids);
        if !d.contains(v) {
            assert(unique_ids(longer) == d.push(v));
            assert(d.push(v).drop_last() =~= d);
            assert(total_weight(users, weights, secret.id, d.push(v)) == total_weight(
                users,
                weights,
                secret.id,
                d,
            ) + weight_of(users, weights, secret.id, v));
        }
    }
}

} // verus!
