//! Lowering of the transaction's own types (keys, timestamps) into the
//! requests it sends.
use crate::kv::Key;
use crate::kvrpcpb::{
    Mutation, PessimisticLockRequest, PESSIMISTIC_LOCK_OP, SHARED_PESSIMISTIC_LOCK_OP,
};
use crate::timestamp::{physical_unit, version_of, Timestamp};
use crate::transaction::requests;
use vstd::prelude::*;

verus! {

/// Whether `ts` stands for a version that `Timestamp::version` can give.
pub open spec fn has_version(ts: Timestamp) -> bool {
    &&& i64::MIN <= ts.physical * physical_unit() <= i64::MAX
    &&& 0 <= version_of(ts) <= i64::MAX
}

/// The operation that locks a key: a shared pessimistic lock where `shared`,
/// else an exclusive one.
pub open spec fn lock_op(shared: bool) -> i32 {
    if shared {
        SHARED_PESSIMISTIC_LOCK_OP
    } else {
        PESSIMISTIC_LOCK_OP
    }
}

/// A request to lock `keys` pessimistically, in their order, for the
/// transaction that started at `start_version`; a foreign-key check takes
/// shared locks (`shared`), other statements exclusive ones.  See
/// `requests::new_pessimistic_lock_request` for the rest of the request.
pub fn new_pessimistic_lock_request(
    keys: Vec<Key>,
    primary_lock: Key,
    start_version: Timestamp,
    lock_ttl: u64,
    for_update_ts: Timestamp,
    need_value: bool,
    wait_ms: i64,
    shared: bool,
) -> (r: PessimisticLockRequest)
    requires
        has_version(start_version),
        has_version(for_update_ts),
    ensures
        r.mutations@.len() == keys@.len(),
        forall|i: int|
            0 <= i < r.mutations@.len() ==> {
                &&& (#[trigger] r.mutations@[i]).key@ == keys@[i]@
                &&& r.mutations@[i].op == lock_op(shared)
                &&& r.mutations@[i].value@ == Seq::<u8>::empty()
                &&& r.mutations@[i].assertion == 0
            },
        r.primary_lock@ == primary_lock@,
        r.start_version == version_of(start_version),
        r.lock_ttl == lock_ttl,
        r.for_update_ts == version_of(for_update_ts),
        !r.is_first_lock,
        r.wait_timeout == wait_ms,
        r.return_values == need_value,
        r.min_commit_ts == 0,
{
    let op: i32 = if shared {
        SHARED_PESSIMISTIC_LOCK_OP
    } else {
        PESSIMISTIC_LOCK_OP
    };
    let mut mutations: Vec<Mutation> = Vec::new();
    let ghost elts = keys@;
    broadcast use vstd::std_specs::vec::axiom_spec_into_iter;
    for key in it: keys
        invariant
            it.seq() == elts,
            mutations@.len() == it.index(),
            op == lock_op(shared),
            forall|i: int|
                0 <= i < mutations@.len() ==> {
                    &&& (#[trigger] mutations@[i]).key@ == it.seq()[i]@
                    &&& mutations@[i].op == op
                    &&& mutations@[i].value@ == Seq::<u8>::empty()
                    &&& mutations@[i].assertion == 0
                },
    {
        let bytes = key.into_bytes();
        mutations.push(Mutation { op, key: bytes, value: Vec::new(), assertion: 0 });
    }
    assert(mutations@.len() == elts.len());
    requests::new_pessimistic_lock_request(
        mutations,
        primary_lock.into_bytes(),
        start_version.version(),
        lock_ttl,
        for_update_ts.version(),
        need_value,
        wait_ms,
    )
}

} // verus!
