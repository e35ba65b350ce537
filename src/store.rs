//! The data client: the single owner of the stored users and samples. Every
//! operation takes the client exclusively (`&mut self` or `&self`), so callers
//! that share it serialize their operations behind one lock and each operation
//! is applied whole or not at all.

use vstd::prelude::*;
use crate::instant::{Instant, instant_of_millis, valid_millis, rfc3339_of};

verus! {

/// The most rows a table can hold: identities are 32-bit and start at one.
pub const MAX_ROWS: usize = 2_147_483_647;

/// Why an operation of the client did not take effect.
#[derive(Clone, Copy, Debug, PartialEq, Eq, Structural)]
pub enum ClientError {
    /// A required field was empty.
    ValidationError,
    /// The timestamp does not denote a representable instant.
    InvalidTimestamp,
    /// The store cannot take the operation: its schema is absent or a table is full.
    StoreUnavailable,
}

impl ClientError {
    pub open spec fn message_spec(&self) -> Seq<char> {
        match self {
            ClientError::ValidationError => "validation error: name and email are required"@,
            ClientError::InvalidTimestamp => "Invalid timestamp"@,
            ClientError::StoreUnavailable => "store unavailable"@,
        }
    }

    /// The caller-facing description of the failure.
    pub fn message(&self) -> (r: &'static str)
        ensures
            r@ == self.message_spec(),
    {
        match self {
            ClientError::ValidationError => "validation error: name and email are required",
            ClientError::InvalidTimestamp => "Invalid timestamp",
            ClientError::StoreUnavailable => "store unavailable",
        }
    }
}

/// A stored sample: its instant, the measured value as the bit pattern of an
/// IEEE 754 double, and a free-form annotation.
pub struct Sample {
    pub at: Instant,
    pub value_bits: u64,
    pub metadata: String,
}

/// What the client holds, abstractly. The identity of a row is its position
/// plus one: rows are only ever appended.
pub struct ClientModel {
    pub schema_ready: bool,
    pub users: Seq<(Seq<char>, Seq<char>)>,
    pub samples: Seq<(Instant, u64, Seq<char>)>,
}

/// The store after `initialize`: the schema exists, the rows are untouched.
pub open spec fn initialized(m: ClientModel) -> ClientModel {
    ClientModel { schema_ready: true, ..m }
}

/// The outcome of `add_user(name, email)` on `m`: the new identity, or why not.
pub open spec fn add_user_outcome(m: ClientModel, name: Seq<char>, email: Seq<char>) -> Result<i32, ClientError> {
    if name.len() == 0 || email.len() == 0 {
        Err(ClientError::ValidationError)
    } else if !m.schema_ready || m.users.len() >= MAX_ROWS {
        Err(ClientError::StoreUnavailable)
    } else {
        Ok((m.users.len() + 1) as i32)
    }
}

/// The store after `add_user(name, email)`: one more row on success, else unchanged.
pub open spec fn after_add_user(m: ClientModel, name: Seq<char>, email: Seq<char>) -> ClientModel {
    if add_user_outcome(m, name, email) is Ok {
        ClientModel { users: m.users.push((name, email)), ..m }
    } else {
        m
    }
}

/// The outcome of `add_sample(t, value_bits, metadata)` on `m`.
pub open spec fn add_sample_outcome(m: ClientModel, t: int) -> Result<i32, ClientError> {
    if !valid_millis(t) {
        Err(ClientError::InvalidTimestamp)
    } else if !m.schema_ready || m.samples.len() >= MAX_ROWS {
        Err(ClientError::StoreUnavailable)
    } else {
        Ok((m.samples.len() + 1) as i32)
    }
}

/// The store after `add_sample(t, value_bits, metadata)`.
pub open spec fn after_add_sample(m: ClientModel, t: int, value_bits: u64, metadata: Seq<char>) -> ClientModel {
    if add_sample_outcome(m, t) is Ok {
        ClientModel { samples: m.samples.push((instant_of_millis(t), value_bits, metadata)), ..m }
    } else {
        m
    }
}

/// The store after `initialize` has been called `n` times in a row.
pub open spec fn initialized_times(m: ClientModel, n: nat) -> ClientModel
    decreases n,
{
    if n == 0 {
        m
    } else {
        initialized(initialized_times(m, (n - 1) as nat))
    }
}

/// Initializing is idempotent: any positive number of calls leaves the store
/// exactly as one call does (and each call succeeds, by `initialize`'s contract).
pub proof fn lemma_initialize_idempotent(m: ClientModel, n: nat)
    requires
        n >= 1,
    ensures
        initialized_times(m, n) == initialized(m),
    decreases n,
{
    assert(initialized_times(m, 0) == m);
    if n > 1 {
        lemma_initialize_idempotent(m, (n - 1) as nat);
        assert(initialized(initialized(m)) == initialized(m));
    }
}

/// A request to add a user is admissible when both fields are non-empty.
pub open spec fn user_fields_present(req: (Seq<char>, Seq<char>)) -> bool {
    req.0.len() > 0 && req.1.len() > 0
}

/// The store after the `add_user` requests `reqs` have run one after another.
pub open spec fn after_add_users(m: ClientModel, reqs: Seq<(Seq<char>, Seq<char>)>) -> ClientModel
    decreases reqs.len(),
{
    if reqs.len() == 0 {
        m
    } else {
        let last = reqs.last();
        after_add_user(after_add_users(m, reqs.drop_last()), last.0, last.1)
    }
}

/// The requests among `reqs` that carry both fields, in their order.
pub open spec fn admissible_users(reqs: Seq<(Seq<char>, Seq<char>)>) -> Seq<(Seq<char>, Seq<char>)>
    decreases reqs.len(),
{
    if reqs.len() == 0 {
        Seq::empty()
    } else if user_fields_present(reqs.last()) {
        admissible_users(reqs.drop_last()).push(reqs.last())
    } else {
        admissible_users(reqs.drop_last())
    }
}

/// However `add_user` calls are serialized, on a ready store with room for
/// them the user table gains exactly one row per successful call, in the order
/// the calls ran: no write is lost and none is duplicated. The calls that
/// succeed are exactly those with both fields present; the samples are untouched.
pub proof fn lemma_add_users_exactly_once(m: ClientModel, reqs: Seq<(Seq<char>, Seq<char>)>)
    requires
        m.schema_ready,
        m.users.len() + reqs.len() <= MAX_ROWS,
    ensures
        after_add_users(m, reqs).users == m.users + admissible_users(reqs),
        after_add_users(m, reqs).samples == m.samples,
        after_add_users(m, reqs).schema_ready,
        forall|k: int| 0 <= k < reqs.len() ==>
            (add_user_outcome(#[trigger] after_add_users(m, reqs.take(k)), reqs[k].0, reqs[k].1) is Ok
                <==> user_fields_present(reqs[k])),
    decreases reqs.len(),
{
    if reqs.len() > 0 {
        let front = reqs.drop_last();
        lemma_add_users_exactly_once(m, front);
        lemma_admissible_len(front);
        let last = reqs.last();
        assert(m.users + admissible_users(front).push(last) =~= (m.users + admissible_users(front)).push(last));
        assert forall|k: int| 0 <= k < reqs.len() implies
            (add_user_outcome(#[trigger] after_add_users(m, reqs.take(k)), reqs[k].0, reqs[k].1) is Ok
                <==> user_fields_present(reqs[k])) by {
            if k < front.len() {
                assert(reqs.take(k) =~= front.take(k));
                assert(reqs[k] == front[k]);
            } else {
                assert(reqs.take(k) =~= front);
            }
        }
    }
}

/// Never more admissible requests than requests.
proof fn lemma_admissible_len(reqs: Seq<(Seq<char>, Seq<char>)>)
    ensures
        admissible_users(reqs).len() <= reqs.len(),
    decreases reqs.len(),
{
    if reqs.len() > 0 {
        lemma_admissible_len(reqs.drop_last());
    }
}

/// A timestamp that denotes no representable instant is refused with
/// `InvalidTimestamp`, whatever the store holds, and nothing is written.
pub proof fn lemma_invalid_timestamp_writes_nothing(m: ClientModel, t: int, value_bits: u64, metadata: Seq<char>)
    requires
        !valid_millis(t),
    ensures
        add_sample_outcome(m, t) == Err::<i32, ClientError>(ClientError::InvalidTimestamp),
        after_add_sample(m, t, value_bits, metadata) == m,
{
}

/// A user write and a sample write do not affect each other: run in either
/// order, each has the same outcome and the store ends the same, so the order
/// in which interactive calls and the listener interleave them does not matter.
pub proof fn lemma_user_and_sample_writes_commute(
    m: ClientModel,
    name: Seq<char>,
    email: Seq<char>,
    t: int,
    value_bits: u64,
    metadata: Seq<char>,
)
    ensures
        add_user_outcome(after_add_sample(m, t, value_bits, metadata), name, email)
            == add_user_outcome(m, name, email),
        add_sample_outcome(after_add_user(m, name, email), t) == add_sample_outcome(m, t),
        after_add_sample(after_add_user(m, name, email), t, value_bits, metadata)
            == after_add_user(after_add_sample(m, t, value_bits, metadata), name, email),
{
}

/// The single owner of the stored rows.
pub struct DataClient {
    schema_ready: bool,
    users: Vec<(String, String)>,
    samples: Vec<Sample>,
}

impl View for DataClient {
    type V = ClientModel;

    closed spec fn view(&self) -> ClientModel {
        ClientModel {
            schema_ready: self.schema_ready,
            users: self.users@.map_values(|u: (String, String)| (u.0@, u.1@)),
            samples: self.samples@.map_values(|s: Sample| (s.at, s.value_bits, s.metadata@)),
        }
    }
}

/// A model is well formed when its tables fit the identity range and every
/// stored instant is valid.
pub open spec fn model_wf(m: ClientModel) -> bool {
    &&& m.users.len() <= MAX_ROWS
    &&& m.samples.len() <= MAX_ROWS
    &&& forall|i: int| 0 <= i < m.samples.len() ==> (#[trigger] m.samples[i]).0.wf()
}

impl DataClient {
    pub open spec fn wf(&self) -> bool {
        model_wf(self@)
    }

    /// A client over an empty store whose schema is not yet created.
    pub fn new() -> (r: DataClient)
        ensures
            r.wf(),
            !r@.schema_ready,
            r@.users.len() == 0,
            r@.samples.len() == 0,
    {
        let r = DataClient { schema_ready: false, users: Vec::new(), samples: Vec::new() };
        assert(r@.users =~= Seq::<(Seq<char>, Seq<char>)>::empty());
        assert(r@.samples =~= Seq::<(Instant, u64, Seq<char>)>::empty());
        r
    }

    /// Creates the schema if it is absent; succeeds at once if it is there.
    pub fn initialize(&mut self) -> (r: Result<(), ClientError>)
        requires
            old(self).wf(),
        ensures
            final(self).wf(),
            final(self)@ == initialized(old(self)@),
            r is Ok,
    {
        self.schema_ready = true;
        proof {
            assert(self@.users =~= old(self)@.users);
            assert(self@.samples =~= old(self)@.samples);
        }
        Ok(())
    }

    /// Adds a user. Both fields must be non-empty; on success the new row's
    /// identity is returned and nothing else changes, on failure nothing changes.
    pub fn add_user(&mut self, name: String, email: String) -> (r: Result<i32, ClientError>)
        requires
            old(self).wf(),
        ensures
            final(self).wf(),
            r == add_user_outcome(old(self)@, name@, email@),
            final(self)@ == after_add_user(old(self)@, name@, email@),
    {
        if name.as_str().is_empty() || email.as_str().is_empty() {
            return Err(ClientError::ValidationError);
        }
        if !self.schema_ready || self.users.len() >= MAX_ROWS {
            return Err(ClientError::StoreUnavailable);
        }
        let id: i32 = (self.users.len() + 1) as i32;
        let ghost before = self@;
        self.users.push((name, email));
        proof {
            assert(self@.users =~= before.users.push((name@, email@)));
        }
        Ok(id)
    }

    /// Every user row, in insertion order, as (identity, name, email).
    pub fn list_users(&self) -> (r: Result<Vec<(i32, String, String)>, ClientError>)
        requires
            self.wf(),
        ensures
            r is Err <==> !self@.schema_ready,
            r matches Err(e) ==> e == ClientError::StoreUnavailable,
            r matches Ok(rows) ==> {
                &&& rows@.len() == self@.users.len()
                &&& forall|i: int| 0 <= i < rows@.len() ==> {
                    &&& (#[trigger] rows@[i]).0 == i + 1
                    &&& rows@[i].1@ == self@.users[i].0
                    &&& rows@[i].2@ == self@.users[i].1
                }
            },
    {
        if !self.schema_ready {
            return Err(ClientError::StoreUnavailable);
        }
        let mut rows: Vec<(i32, String, String)> = Vec::new();
        let mut i: usize = 0;
        while i < self.users.len()
            invariant
                self.wf(),
                i <= self.users.len(),
                rows@.len() == i,
                forall|j: int| 0 <= j < i ==> {
                    &&& (#[trigger] rows@[j]).0 == j + 1
                    &&& rows@[j].1@ == self@.users[j].0
                    &&& rows@[j].2@ == self@.users[j].1
                },
            decreases self.users.len() - i,
        {
            let u = &self.users[i];
            rows.push(((i + 1) as i32, u.0.clone(), u.1.clone()));
            i = i + 1;
        }
        Ok(rows)
    }

    /// Adds a sample taken `t` milliseconds after the epoch. The instant is
    /// normalized before anything is written; a timestamp that denotes no
    /// representable instant is refused and nothing changes.
    pub fn add_sample(&mut self, t: i64, value_bits: u64, metadata: String) -> (r: Result<i32, ClientError>)
        requires
            old(self).wf(),
        ensures
            final(self).wf(),
            r == add_sample_outcome(old(self)@, t as int),
            final(self)@ == after_add_sample(old(self)@, t as int, value_bits, metadata@),
    {
        let at = match Instant::from_millis(t) {
            Some(at) => at,
            None => {
                return Err(ClientError::InvalidTimestamp);
            },
        };
        if !self.schema_ready || self.samples.len() >= MAX_ROWS {
            return Err(ClientError::StoreUnavailable);
        }
        let id: i32 = (self.samples.len() + 1) as i32;
        let ghost before = self@;
        self.samples.push(Sample { at, value_bits, metadata });
        proof {
            assert(self@.samples =~= before.samples.push((instant_of_millis(t as int), value_bits, metadata@)));
        }
        Ok(id)
    }

    /// Every sample, in insertion order, as (identity, RFC 3339 timestamp,
    /// value bits, metadata).
    pub fn list_samples(&self) -> (r: Result<Vec<(i32, String, u64, String)>, ClientError>)
        requires
            self.wf(),
        ensures
            r is Err <==> !self@.schema_ready,
            r matches Err(e) ==> e == ClientError::StoreUnavailable,
            r matches Ok(rows) ==> {
                &&& rows@.len() == self@.samples.len()
                &&& forall|i: int| 0 <= i < rows@.len() ==> {
                    &&& (#[trigger] rows@[i]).0 == i + 1
                    &&& rows@[i].1@ == rfc3339_of(self@.samples[i].0.secs as int, self@.samples[i].0.nanos as int)
                    &&& rows@[i].2 == self@.samples[i].1
                    &&& rows@[i].3@ == self@.samples[i].2
                }
            },
    {
        if !self.schema_ready {
            return Err(ClientError::StoreUnavailable);
        }
        let mut rows: Vec<(i32, String, u64, String)> = Vec::new();
        let mut i: usize = 0;
        while i < self.samples.len()
            invariant
                self.wf(),
                i <= self.samples.len(),
                rows@.len() == i,
                forall|j: int| 0 <= j < i ==> {
                    &&& (#[trigger] rows@[j]).0 == j + 1
                    &&& rows@[j].1@ == rfc3339_of(self@.samples[j].0.secs as int, self@.samples[j].0.nanos as int)
                    &&& rows@[j].2 == self@.samples[j].1
                    &&& rows@[j].3@ == self@.samples[j].2
                },
            decreases self.samples.len() - i,
        {
            let s = &self.samples[i];
            proof {
                assert(self@.samples[i as int].0.wf());
            }
            rows.push(((i + 1) as i32, s.at.to_rfc3339(), s.value_bits, s.metadata.clone()));
            i = i + 1;
        }
        Ok(rows)
    }
}

} // verus!
