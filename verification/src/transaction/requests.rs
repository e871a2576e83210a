//! The requests that the transaction sends to take pessimistic locks.
use crate::kvrpcpb::{Mutation, PessimisticLockRequest, PrewriteRequest, SKIP_PESSIMISTIC_CHECK};
use vstd::prelude::*;

verus! {

/// A request to lock the keys of `mutations` pessimistically for the
/// transaction that started at `start_version`, with `primary_lock` as its
/// primary.  The request waits at most `wait_ms` milliseconds for locks held
/// by others (`-1`: not at all; `0`: the server's default); it is not the
/// first lock of the transaction and asks for no minimum commit timestamp.
pub fn new_pessimistic_lock_request(
    mutations: Vec<Mutation>,
    primary_lock: Vec<u8>,
    start_version: u64,
    lock_ttl: u64,
    for_update_ts: u64,
    need_value: bool,
    wait_ms: i64,
) -> (r: PessimisticLockRequest)
    ensures
        r.mutations == mutations,
        r.primary_lock == primary_lock,
        r.start_version == start_version,
        r.lock_ttl == lock_ttl,
        r.for_update_ts == for_update_ts,
        !r.is_first_lock,
        r.wait_timeout == wait_ms,
        r.return_values == need_value,
        r.min_commit_ts == 0,
{
    PessimisticLockRequest {
        mutations,
        primary_lock,
        start_version,
        lock_ttl,
        for_update_ts,
        is_first_lock: false,
        wait_timeout: wait_ms,
        return_values: need_value,
        min_commit_ts: 0,
    }
}

/// Whether `a` and `b` hold the same bytes.
fn same_bytes(a: &Vec<u8>, b: &Vec<u8>) -> (r: bool)
    ensures
        r == (a@ == b@),
{
    if a.len() != b.len() {
        return false;
    }
    let n = a.len();
    let mut i: usize = 0;
    while i < n
        invariant
            n == a@.len(),
            n == b@.len(),
            i <= n,
            forall|j: int| 0 <= j < i ==> a@[j] == b@[j],
        decreases n - i,
    {
        if a[i] != b[i] {
            return false;
        }
        i = i + 1;
    }
    assert(a@ =~= b@);
    true
}

/// Whether some mutation among `mutations` is for `key`.
pub open spec fn holds_key(mutations: Seq<Mutation>, key: Seq<u8>) -> bool {
    exists|i: int| 0 <= i < mutations.len() && #[trigger] mutations[i].key@ == key
}

/// The key of a mutation at any position is held by the mutations.
pub proof fn lemma_holds_key_anywhere(mutations: Seq<Mutation>, i: int)
    requires
        0 <= i < mutations.len(),
    ensures
        holds_key(mutations, mutations[i].key@),
{
}

/// No mutations hold a key; mutations followed by one more hold exactly the
/// keys they held and the key of the new one; two runs of mutations put
/// together hold exactly the keys that either holds.
pub proof fn lemma_holds_key_grow(a: Seq<Mutation>, b: Seq<Mutation>, m: Mutation, key: Seq<u8>)
    ensures
        !holds_key(Seq::<Mutation>::empty(), key),
        holds_key(a.push(m), key) == (holds_key(a, key) || m.key@ == key),
        holds_key(a + b, key) == (holds_key(a, key) || holds_key(b, key)),
{
    let pushed = a.push(m);
    let all = a + b;
    if holds_key(a, key) {
        let i = choose|i: int| 0 <= i < a.len() && #[trigger] a[i].key@ == key;
        assert(pushed[i] == a[i]);
        assert(all[i] == a[i]);
    }
    if m.key@ == key {
        assert(pushed[a.len() as int] == m);
    }
    if holds_key(pushed, key) {
        let i = choose|i: int| 0 <= i < pushed.len() && #[trigger] pushed[i].key@ == key;
        if i < a.len() {
            assert(a[i] == pushed[i]);
        }
    }
    if holds_key(b, key) {
        let i = choose|i: int| 0 <= i < b.len() && #[trigger] b[i].key@ == key;
        assert(all[a.len() + i] == b[i]);
    }
    if holds_key(all, key) {
        let i = choose|i: int| 0 <= i < all.len() && #[trigger] all[i].key@ == key;
        if i < a.len() {
            assert(a[i] == all[i]);
        } else {
            assert(b[i - a.len()] == all[i]);
        }
    }
}

/// Whether `i` is the first position in `mutations` of a mutation for `key`.
pub open spec fn is_first_position(mutations: Seq<Mutation>, key: Seq<u8>, i: int) -> bool {
    &&& 0 <= i < mutations.len()
    &&& mutations[i].key@ == key
    &&& forall|j: int| 0 <= j < i ==> #[trigger] mutations[j].key@ != key
}

/// The action that `actions`, one per mutation of `mutations`, give the
/// first mutation for `key`; the default action where there is none.
pub open spec fn action_for(mutations: Seq<Mutation>, actions: Seq<i32>, key: Seq<u8>) -> i32 {
    if exists|i: int| is_first_position(mutations, key, i) {
        let i = choose|i: int| is_first_position(mutations, key, i);
        if i < actions.len() {
            actions[i]
        } else {
            SKIP_PESSIMISTIC_CHECK
        }
    } else {
        SKIP_PESSIMISTIC_CHECK
    }
}

proof fn lemma_first_position_unique(mutations: Seq<Mutation>, key: Seq<u8>, i: int, k: int)
    requires
        is_first_position(mutations, key, i),
        is_first_position(mutations, key, k),
    ensures
        i == k,
{
    if i < k {
        assert(mutations[i].key@ != key);
    } else if k < i {
        assert(mutations[k].key@ != key);
    }
}

proof fn lemma_first_position_exists(mutations: Seq<Mutation>, key: Seq<u8>, i: int)
    requires
        0 <= i < mutations.len(),
        mutations[i].key@ == key,
    ensures
        exists|k: int| is_first_position(mutations, key, k),
    decreases i,
{
    if exists|j: int| 0 <= j < i && #[trigger] mutations[j].key@ == key {
        let j = choose|j: int| 0 <= j < i && #[trigger] mutations[j].key@ == key;
        lemma_first_position_exists(mutations, key, j);
    } else {
        assert(is_first_position(mutations, key, i));
    }
}

/// A key takes the action of its first mutation: a key that the mutations
/// do not hold gets the default action; one more mutation, with its action,
/// leaves the action of every key already held as it was, and gives its own
/// key, where that key is new, its own action.
pub proof fn lemma_action_for_push(
    mutations: Seq<Mutation>,
    actions: Seq<i32>,
    m: Mutation,
    action: i32,
    key: Seq<u8>,
)
    requires
        actions.len() == mutations.len(),
    ensures
        !holds_key(mutations, key) ==> action_for(mutations, actions, key)
            == SKIP_PESSIMISTIC_CHECK,
        holds_key(mutations, key) ==> action_for(mutations.push(m), actions.push(action), key)
            == action_for(mutations, actions, key),
        !holds_key(mutations, key) && m.key@ == key ==> action_for(
            mutations.push(m),
            actions.push(action),
            key,
        ) == action,
{
    let ms = mutations.push(m);
    let acts = actions.push(action);
    if holds_key(mutations, key) {
        let i = choose|i: int| 0 <= i < mutations.len() && #[trigger] mutations[i].key@ == key;
        lemma_first_position_exists(mutations, key, i);
        let k = choose|k: int| is_first_position(mutations, key, k);
        assert forall|j: int| 0 <= j < k implies #[trigger] ms[j].key@ != key by {
            assert(ms[j] == mutations[j]);
            assert(mutations[j].key@ != key);
        }
        assert(ms[k] == mutations[k]);
        assert(is_first_position(ms, key, k));
        let k2 = choose|k2: int| is_first_position(ms, key, k2);
        lemma_first_position_unique(ms, key, k, k2);
        assert(acts[k] == actions[k]);
    } else {
        if exists|k: int| is_first_position(mutations, key, k) {
            let k = choose|k: int| is_first_position(mutations, key, k);
            assert(mutations[k].key@ == key);
        }
        if m.key@ == key {
            let n = mutations.len() as int;
            assert forall|j: int| 0 <= j < n implies #[trigger] ms[j].key@ != key by {
                assert(ms[j] == mutations[j]);
                if mutations[j].key@ == key {
                    assert(holds_key(mutations, key));
                }
            }
            assert(ms[n] == m);
            assert(is_first_position(ms, key, n));
            let k2 = choose|k2: int| is_first_position(ms, key, k2);
            lemma_first_position_unique(ms, key, n, k2);
        }
    }
}

fn shard_holds_key(shard: &Vec<Mutation>, key: &Vec<u8>) -> (r: bool)
    ensures
        r == holds_key(shard@, key@),
{
    let n = shard.len();
    let mut i: usize = 0;
    while i < n
        invariant
            n == shard@.len(),
            i <= n,
            forall|j: int| 0 <= j < i ==> #[trigger] shard@[j].key@ != key@,
        decreases n - i,
    {
        if same_bytes(&shard[i].key, key) {
            return true;
        }
        i = i + 1;
    }
    false
}

fn find_action(mutations: &Vec<Mutation>, actions: &Vec<i32>, key: &Vec<u8>) -> (r: i32)
    ensures
        r == action_for(mutations@, actions@, key@),
{
    let n = mutations.len();
    let mut i: usize = 0;
    while i < n
        invariant
            n == mutations@.len(),
            i <= n,
            forall|j: int| 0 <= j < i ==> #[trigger] mutations@[j].key@ != key@,
        decreases n - i,
    {
        if same_bytes(&mutations[i].key, key) {
            proof {
                assert(is_first_position(mutations@, key@, i as int));
                let k = choose|k: int| is_first_position(mutations@, key@, k);
                lemma_first_position_unique(mutations@, key@, i as int, k);
            }
            if i < actions.len() {
                return actions[i];
            } else {
                return SKIP_PESSIMISTIC_CHECK;
            }
        }
        i = i + 1;
    }
    proof {
        if exists|k: int| is_first_position(mutations@, key@, k) {
            let k = choose|k: int| is_first_position(mutations@, key@, k);
            assert(mutations@[k].key@ != key@);
        }
    }
    SKIP_PESSIMISTIC_CHECK
}

/// Where the keys of a request's mutations are all different, every key
/// finds, in a shard, the very action it had in the whole request.
pub proof fn lemma_shard_keeps_key_actions(mutations: Seq<Mutation>, actions: Seq<i32>, i: int)
    requires
        0 <= i < mutations.len(),
        actions.len() == mutations.len(),
        forall|a: int, b: int|
            0 <= a < b < mutations.len() ==> mutations[a].key@ != mutations[b].key@,
    ensures
        action_for(mutations, actions, mutations[i].key@) == actions[i],
{
    let key = mutations[i].key@;
    assert(is_first_position(mutations, key, i));
    let k = choose|k: int| is_first_position(mutations, key, k);
    lemma_first_position_unique(mutations, key, i, k);
}

impl PrewriteRequest {
    /// Narrows the request to the keys of `shard`, one of the shards its
    /// mutations are split into.  The secondaries of an async-commit request
    /// go only with the shard that holds the primary key; one-phase commit is
    /// kept only where the shard is the whole transaction (the primary and all
    /// secondaries); each key keeps the pessimistic action it had in the whole
    /// request.
    pub fn apply_shard(&mut self, shard: Vec<Mutation>)
        ensures
            final(self).mutations@ == shard@,
            final(self).secondaries@ == if old(self).use_async_commit && !holds_key(
                shard@,
                old(self).primary_lock@,
            ) {
                Seq::<Vec<u8>>::empty()
            } else {
                old(self).secondaries@
            },
            final(self).try_one_pc == (old(self).try_one_pc && shard@.len()
                == old(self).secondaries@.len() + 1),
            old(self).pessimistic_actions@.len() == 0 ==> final(self).pessimistic_actions@.len()
                == 0,
            old(self).pessimistic_actions@.len() > 0 ==> {
                &&& final(self).pessimistic_actions@.len() == shard@.len()
                &&& forall|j: int|
                    0 <= j < shard@.len() ==> #[trigger] final(self).pessimistic_actions@[j]
                        == action_for(
                        old(self).mutations@,
                        old(self).pessimistic_actions@,
                        shard@[j].key@,
                    )
            },
            final(self).context == old(self).context,
            final(self).primary_lock == old(self).primary_lock,
            final(self).start_version == old(self).start_version,
            final(self).lock_ttl == old(self).lock_ttl,
            final(self).use_async_commit == old(self).use_async_commit,
            final(self).for_update_ts == old(self).for_update_ts,
            final(self).min_commit_ts == old(self).min_commit_ts,
            final(self).max_commit_ts == old(self).max_commit_ts,
    {
        let whole = shard.len() > 0 && shard.len() - 1 == self.secondaries.len();
        if self.use_async_commit && !shard_holds_key(&shard, &self.primary_lock) {
            self.secondaries = Vec::new();
        }
        if self.try_one_pc && !whole {
            self.try_one_pc = false;
        }
        if self.pessimistic_actions.len() > 0 {
            let mut actions: Vec<i32> = Vec::new();
            let n = shard.len();
            let mut j: usize = 0;
            while j < n
                invariant
                    n == shard@.len(),
                    j <= n,
                    actions@.len() == j,
                    forall|k: int|
                        0 <= k < j ==> #[trigger] actions@[k] == action_for(
                            self.mutations@,
                            self.pessimistic_actions@,
                            shard@[k].key@,
                        ),
                decreases n - j,
            {
                let action = find_action(&self.mutations, &self.pessimistic_actions, &shard[j].key);
                actions.push(action);
                j = j + 1;
            }
            self.pessimistic_actions = actions;
        }
        self.mutations = shard;
    }
}

} // verus!
