//! The parts of TiKV's key-value protocol messages that the transaction logic
//! reads and writes.
use vstd::prelude::*;

verus! {

/// The replica of a Region that a request is addressed to.
#[derive(Clone, Copy, Debug, PartialEq, Eq, Structural)]
pub struct Peer {
    pub id: u64,
    pub store_id: u64,
}

/// The routing context that a request carries.
#[derive(Clone, Copy, Debug, PartialEq, Eq, Structural)]
pub struct Context {
    pub peer: Option<Peer>,
    pub replica_read: bool,
}

/// A point read of one key.
#[derive(Clone, Debug)]
pub struct GetRequest {
    pub context: Option<Context>,
    pub key: Vec<u8>,
    pub version: u64,
}

impl Default for GetRequest {
    fn default() -> (r: GetRequest)
        ensures
            r.context is None,
            r.key@ == Seq::<u8>::empty(),
            r.version == 0,
    {
        GetRequest { context: None, key: Vec::new(), version: 0 }
    }
}

/// A read of several keys.
#[derive(Clone, Debug)]
pub struct BatchGetRequest {
    pub context: Option<Context>,
    pub keys: Vec<Vec<u8>>,
    pub version: u64,
}

impl Default for BatchGetRequest {
    fn default() -> (r: BatchGetRequest)
        ensures
            r.context is None,
            r.keys@ == Seq::<Vec<u8>>::empty(),
            r.version == 0,
    {
        BatchGetRequest { context: None, keys: Vec::new(), version: 0 }
    }
}

/// A read of a key range.
#[derive(Clone, Debug)]
pub struct ScanRequest {
    pub context: Option<Context>,
    pub start_key: Vec<u8>,
    pub end_key: Vec<u8>,
    pub limit: u32,
    pub version: u64,
    pub key_only: bool,
    pub reverse: bool,
}

impl Default for ScanRequest {
    fn default() -> (r: ScanRequest)
        ensures
            r.context is None,
            r.start_key@ == Seq::<u8>::empty(),
            r.end_key@ == Seq::<u8>::empty(),
            r.limit == 0,
            r.version == 0,
            !r.key_only,
            !r.reverse,
    {
        ScanRequest {
            context: None,
            start_key: Vec::new(),
            end_key: Vec::new(),
            limit: 0,
            version: 0,
            key_only: false,
            reverse: false,
        }
    }
}

/// A lock that TiKV reports on a key.  A shared lock shows up as a wrapper
/// whose `shared_lock_infos` list the transactions that share it.
#[derive(Debug)]
pub struct LockInfo {
    pub primary_lock: Vec<u8>,
    pub lock_version: u64,
    pub key: Vec<u8>,
    pub lock_ttl: u64,
    pub shared_lock_infos: Vec<LockInfo>,
}

/// Whether `a` and `b` hold the same lock, down to the locks they wrap.
pub open spec fn same_lock(a: LockInfo, b: LockInfo) -> bool
    decreases a,
{
    &&& a.primary_lock@ == b.primary_lock@
    &&& a.lock_version == b.lock_version
    &&& a.key@ == b.key@
    &&& a.lock_ttl == b.lock_ttl
    &&& a.shared_lock_infos@.len() == b.shared_lock_infos@.len()
    &&& forall|i: int|
        0 <= i < a.shared_lock_infos@.len() ==> same_lock(
            #[trigger] a.shared_lock_infos@[i],
            b.shared_lock_infos@[i],
        )
}

/// Being the same lock is an equivalence: every lock is the same as itself,
/// and the relation goes both ways and carries over from one copy to the
/// next.  Two locks that are the same agree on every field, and so do the
/// locks they wrap, position by position.
pub proof fn lemma_same_lock_equivalence(a: LockInfo, b: LockInfo, c: LockInfo)
    ensures
        same_lock(a, a),
        same_lock(a, b) ==> same_lock(b, a),
        same_lock(a, b) && same_lock(b, c) ==> same_lock(a, c),
        same_lock(a, b) ==> {
            &&& a.primary_lock@ == b.primary_lock@
            &&& a.lock_version == b.lock_version
            &&& a.key@ == b.key@
            &&& a.lock_ttl == b.lock_ttl
            &&& a.shared_lock_infos@.len() == b.shared_lock_infos@.len()
            &&& forall|i: int|
                0 <= i < a.shared_lock_infos@.len() ==> {
                    &&& (#[trigger] a.shared_lock_infos@[i]).lock_version
                        == b.shared_lock_infos@[i].lock_version
                    &&& a.shared_lock_infos@[i].key@ == b.shared_lock_infos@[i].key@
                    &&& a.shared_lock_infos@[i].primary_lock@
                        == b.shared_lock_infos@[i].primary_lock@
                    &&& a.shared_lock_infos@[i].lock_ttl == b.shared_lock_infos@[i].lock_ttl
                }
        },
    decreases a,
{
    assert forall|i: int| 0 <= i < a.shared_lock_infos@.len() implies same_lock(
        #[trigger] a.shared_lock_infos@[i],
        a.shared_lock_infos@[i],
    ) by {
        assert(decreases_to!(a => a.shared_lock_infos@[i]));
        lemma_same_lock_equivalence(a.shared_lock_infos@[i], a.shared_lock_infos@[i], a.shared_lock_infos@[i]);
    }
    if same_lock(a, b) {
        assert forall|i: int| 0 <= i < b.shared_lock_infos@.len() implies same_lock(
            #[trigger] b.shared_lock_infos@[i],
            a.shared_lock_infos@[i],
        ) by {
            assert(decreases_to!(a => a.shared_lock_infos@[i]));
            lemma_same_lock_equivalence(a.shared_lock_infos@[i], b.shared_lock_infos@[i], b.shared_lock_infos@[i]);
        }
        if same_lock(b, c) {
            assert forall|i: int| 0 <= i < a.shared_lock_infos@.len() implies same_lock(
                #[trigger] a.shared_lock_infos@[i],
                c.shared_lock_infos@[i],
            ) by {
                assert(decreases_to!(a => a.shared_lock_infos@[i]));
                assert(same_lock(b.shared_lock_infos@[i], c.shared_lock_infos@[i]));
                lemma_same_lock_equivalence(a.shared_lock_infos@[i], b.shared_lock_infos@[i], c.shared_lock_infos@[i]);
            }
        }
    }
}

/// A copy of `lock`, down to the locks it wraps.
fn copy_lock(lock: &LockInfo) -> (r: LockInfo)
    ensures
        same_lock(*lock, r),
    decreases lock,
{
    let mut shared: Vec<LockInfo> = Vec::new();
    let n = lock.shared_lock_infos.len();
    let mut i: usize = 0;
    while i < n
        invariant
            n == lock.shared_lock_infos@.len(),
            i <= n,
            shared@.len() == i,
            forall|j: int|
                0 <= j < i ==> same_lock(#[trigger] lock.shared_lock_infos@[j], shared@[j]),
        decreases n - i,
    {
        proof {
            assert(decreases_to!(lock => lock.shared_lock_infos@[i as int]));
        }
        let inner = copy_lock(&lock.shared_lock_infos[i]);
        shared.push(inner);
        i = i + 1;
    }
    LockInfo {
        primary_lock: lock.primary_lock.clone(),
        lock_version: lock.lock_version,
        key: lock.key.clone(),
        lock_ttl: lock.lock_ttl,
        shared_lock_infos: shared,
    }
}

impl Clone for LockInfo {
    fn clone(&self) -> (r: LockInfo)
        ensures
            same_lock(*self, r),
    {
        copy_lock(self)
    }
}

impl Default for LockInfo {
    fn default() -> (r: LockInfo)
        ensures
            r.primary_lock@ == Seq::<u8>::empty(),
            r.lock_version == 0,
            r.key@ == Seq::<u8>::empty(),
            r.lock_ttl == 0,
            r.shared_lock_infos@ == Seq::<LockInfo>::empty(),
    {
        LockInfo {
            primary_lock: Vec::new(),
            lock_version: 0,
            key: Vec::new(),
            lock_ttl: 0,
            shared_lock_infos: Vec::new(),
        }
    }
}

/// Why a write conflicted, in the order of the protocol's numbering (the
/// number of a reason is its position, from 0).
#[derive(Clone, Copy, Debug, PartialEq, Eq, Structural)]
pub enum Reason {
    Unknown,
    Optimistic,
    PessimisticRetry,
    SelfRolledBack,
    RcCheckTs,
    LazyUniquenessCheck,
}

/// The number of the reason `PessimisticRetry`.
pub const PESSIMISTIC_RETRY_REASON: i32 = 2;

/// A write that conflicted with another transaction.
#[derive(Clone, Debug)]
pub struct WriteConflict {
    pub start_ts: u64,
    pub conflict_ts: u64,
    pub key: Vec<u8>,
    pub primary: Vec<u8>,
    pub reason: i32,
}

impl Default for WriteConflict {
    fn default() -> (r: WriteConflict)
        ensures
            r.start_ts == 0,
            r.conflict_ts == 0,
            r.key@ == Seq::<u8>::empty(),
            r.primary@ == Seq::<u8>::empty(),
            r.reason == 0,
    {
        WriteConflict { start_ts: 0, conflict_ts: 0, key: Vec::new(), primary: Vec::new(), reason: 0 }
    }
}

/// The error TiKV reports for one key.
#[derive(Clone, Debug)]
pub struct KeyError {
    pub locked: Option<LockInfo>,
    pub retryable: String,
    pub abort: String,
    pub conflict: Option<WriteConflict>,
}

impl Default for KeyError {
    fn default() -> (r: KeyError)
        ensures
            r.locked is None,
            r.retryable@ == Seq::<char>::empty(),
            r.abort@ == Seq::<char>::empty(),
            r.conflict is None,
    {
        KeyError { locked: None, retryable: String::new(), abort: String::new(), conflict: None }
    }
}

/// The kind of a mutation, in the order of the protocol's numbering (the
/// number of a kind is its position, from 0).
#[derive(Clone, Copy, Debug, PartialEq, Eq, Structural)]
pub enum Op {
    Put,
    Del,
    Lock,
    Rollback,
    Insert,
    PessimisticLock,
    CheckNotExists,
    SharedPessimisticLock,
}

/// The number of `Op::PessimisticLock`.
pub const PESSIMISTIC_LOCK_OP: i32 = 5;

/// The number of `Op::SharedPessimisticLock`.
pub const SHARED_PESSIMISTIC_LOCK_OP: i32 = 7;

/// What a prewrite checks for one key of a pessimistic transaction, in the
/// order of the protocol's numbering (the number of an action is its
/// position, from 0).
#[derive(Clone, Copy, Debug, PartialEq, Eq, Structural)]
pub enum PessimisticAction {
    SkipPessimisticCheck,
    DoPessimisticCheck,
    DoConstraintCheck,
}

/// The number of `PessimisticAction::SkipPessimisticCheck`, the protocol's
/// default action.
pub const SKIP_PESSIMISTIC_CHECK: i32 = 0;

/// One key of a write or lock request.
#[derive(Clone, Debug)]
pub struct Mutation {
    pub op: i32,
    pub key: Vec<u8>,
    pub value: Vec<u8>,
    pub assertion: i32,
}

impl Default for Mutation {
    fn default() -> (r: Mutation)
        ensures
            r.op == 0,
            r.key@ == Seq::<u8>::empty(),
            r.value@ == Seq::<u8>::empty(),
            r.assertion == 0,
    {
        Mutation { op: 0, key: Vec::new(), value: Vec::new(), assertion: 0 }
    }
}

/// A request to take pessimistic locks on keys.
#[derive(Clone, Debug)]
pub struct PessimisticLockRequest {
    pub mutations: Vec<Mutation>,
    pub primary_lock: Vec<u8>,
    pub start_version: u64,
    pub lock_ttl: u64,
    pub for_update_ts: u64,
    pub is_first_lock: bool,
    pub wait_timeout: i64,
    pub return_values: bool,
    pub min_commit_ts: u64,
}

/// A request to prewrite the keys of `mutations`.  `pessimistic_actions`,
/// where not empty, holds one action per mutation, at the same position.
#[derive(Clone, Debug)]
pub struct PrewriteRequest {
    pub context: Option<Context>,
    pub mutations: Vec<Mutation>,
    pub primary_lock: Vec<u8>,
    pub start_version: u64,
    pub lock_ttl: u64,
    pub secondaries: Vec<Vec<u8>>,
    pub use_async_commit: bool,
    pub try_one_pc: bool,
    pub pessimistic_actions: Vec<i32>,
    pub for_update_ts: u64,
    pub min_commit_ts: u64,
    pub max_commit_ts: u64,
}

impl Default for PrewriteRequest {
    fn default() -> (r: PrewriteRequest)
        ensures
            r.context is None,
            r.mutations@ == Seq::<Mutation>::empty(),
            r.primary_lock@ == Seq::<u8>::empty(),
            r.start_version == 0,
            r.lock_ttl == 0,
            r.secondaries@ == Seq::<Vec<u8>>::empty(),
            !r.use_async_commit,
            !r.try_one_pc,
            r.pessimistic_actions@ == Seq::<i32>::empty(),
            r.for_update_ts == 0,
            r.min_commit_ts == 0,
            r.max_commit_ts == 0,
    {
        PrewriteRequest {
            context: None,
            mutations: Vec::new(),
            primary_lock: Vec::new(),
            start_version: 0,
            lock_ttl: 0,
            secondaries: Vec::new(),
            use_async_commit: false,
            try_one_pc: false,
            pessimistic_actions: Vec::new(),
            for_update_ts: 0,
            min_commit_ts: 0,
            max_commit_ts: 0,
        }
    }
}

} // verus!
