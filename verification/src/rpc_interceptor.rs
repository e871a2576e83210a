//! Scoped registration of RPC interceptors, and how the answers of the
//! registered interceptors combine into one transaction policy.
use vstd::prelude::*;

verus! {

/// Proof that an interceptor was registered; handing it back to the registry
/// that issued it unregisters that interceptor, and no other.
#[derive(Debug)]
pub struct InterceptorGuard {
    id: u64,
}

impl View for InterceptorGuard {
    type V = u64;

    /// The registration id that this guard stands for.
    closed spec fn view(&self) -> u64 {
        self.id
    }
}

impl InterceptorGuard {
    /// The registration id that this guard stands for.
    pub fn id(&self) -> (r: u64)
        ensures
            r == self@,
    {
        self.id
    }
}

/// The interceptors in force, each with the id it was registered under, in
/// the order of registration.
pub struct InterceptorRegistry<H> {
    next_id: u64,
    entries: Vec<(u64, H)>,
}

/// Whether the ids in `entries` rise strictly from first to last.
pub open spec fn ids_ascending<H>(entries: Seq<(u64, H)>) -> bool {
    forall|i: int, j: int| 0 <= i < j < entries.len() ==> entries[i].0 < entries[j].0
}

/// Whether some entry of `entries` was registered under `id`.
pub open spec fn has_id<H>(entries: Seq<(u64, H)>, id: u64) -> bool {
    exists|i: int| 0 <= i < entries.len() && entries[i].0 == id
}

/// The entries left once those registered under `id` are taken out.
pub open spec fn without_id<H>(entries: Seq<(u64, H)>, id: u64) -> Seq<(u64, H)> {
    entries.filter(|e: (u64, H)| e.0 != id)
}

impl<H> View for InterceptorRegistry<H> {
    type V = Seq<(u64, H)>;

    closed spec fn view(&self) -> Seq<(u64, H)> {
        self.entries@
    }
}

impl<H> InterceptorRegistry<H> {
    /// The id that the next registration will receive.
    pub closed spec fn next_id(&self) -> u64 {
        self.next_id
    }

    /// Ids are handed out from 1 upwards, each once: the entries hold ids
    /// below `next_id`, in ascending order.
    #[verifier::type_invariant]
    spec fn wf(self) -> bool {
        &&& 1 <= self.next_id
        &&& ids_ascending(self.entries@)
        &&& forall|i: int| 0 <= i < self.entries@.len() ==> #[trigger] self.entries@[i].0 < self.next_id
    }

    /// An empty registry whose first id will be 1.
    pub fn new() -> (r: InterceptorRegistry<H>)
        ensures
            r@ == Seq::<(u64, H)>::empty(),
            r.next_id() == 1,
    {
        InterceptorRegistry { next_id: 1, entries: Vec::new() }
    }

    /// Whether another interceptor can still be given an id of its own.
    pub fn can_register(&self) -> (r: bool)
        ensures
            r == (self.next_id() < u64::MAX),
    {
        self.next_id < u64::MAX
    }

    /// The number of interceptors in force.
    pub fn len(&self) -> (r: usize)
        ensures
            r == self@.len(),
    {
        self.entries.len()
    }

    /// Copies of the interceptors in force, in the order of registration.
    pub fn snapshot(&self) -> (r: Vec<H>) where H: Clone
        ensures
            r@.len() == self@.len(),
            forall|i: int| 0 <= i < r@.len() ==> cloned::<H>(self@[i].1, #[trigger] r@[i]),
    {
        let mut r: Vec<H> = Vec::new();
        let n = self.entries.len();
        let mut i: usize = 0;
        while i < n
            invariant
                n == self.entries@.len(),
                i <= n,
                r@.len() == i,
                forall|j: int| 0 <= j < i ==> cloned::<H>(self.entries@[j].1, #[trigger] r@[j]),
            decreases n - i,
        {
            let hook = self.entries[i].1.clone();
            r.push(hook);
            i = i + 1;
        }
        r
    }

    /// Takes out the interceptor that `guard` was issued for; every other
    /// interceptor stays, in its order, even where guards are handed back out
    /// of the order of registration.
    pub fn unregister(&mut self, guard: InterceptorGuard)
        ensures
            final(self).next_id() == old(self).next_id(),
            final(self)@ == without_id(old(self)@, guard@),
            ids_ascending(final(self)@),
    {
        proof {
            use_type_invariant(&*self);
        }
        let id = guard.id;
        let ghost orig = self.entries@;
        let ghost pred = |e: (u64, H)| e.0 != id;
        let mut rest: Vec<(u64, H)> = Vec::new();
        core::mem::swap(&mut rest, &mut self.entries);
        let mut kept: Vec<(u64, H)> = Vec::new();
        let ghost mut k: int = 0;
        while rest.len() > 0
            invariant
                0 <= k <= orig.len(),
                rest@ == orig.skip(k),
                kept@ == orig.take(k).filter(pred),
                ids_ascending(orig),
                ids_ascending(kept@),
                forall|i: int| 0 <= i < orig.len() ==> #[trigger] orig[i].0 < self.next_id,
                forall|j: int|
                    0 <= j < kept@.len() ==> exists|m: int|
                        0 <= m < k && #[trigger] kept@[j].0 == #[trigger] orig[m].0,
                pred == (|e: (u64, H)| e.0 != id),
            decreases rest@.len(),
        {
            let e = rest.remove(0);
            proof {
                assert(e == orig[k]);
                assert(orig.take(k + 1).drop_last() =~= orig.take(k));
                assert(orig.take(k + 1).last() == orig[k]);
                reveal(Seq::filter);
                assert(rest@ =~= orig.skip(k + 1));
            }
            if e.0 != id {
                let ghost before = kept@;
                kept.push(e);
                proof {
                    assert forall|j: int| 0 <= j < before.len() implies before[j].0 < orig[k].0 by {
                        let m = choose|m: int| 0 <= m < k && before[j].0 == orig[m].0;
                        assert(kept@[j] == before[j]);
                    }
                    assert forall|j: int| 0 <= j < kept@.len() implies exists|m: int|
                        0 <= m < k + 1 && #[trigger] kept@[j].0 == #[trigger] orig[m].0 by {
                        if j < before.len() {
                            assert(kept@[j] == before[j]);
                            let m = choose|m: int| 0 <= m < k && before[j].0 == orig[m].0;
                            assert(kept@[j].0 == orig[m].0);
                        } else {
                            assert(kept@[j].0 == orig[k].0);
                        }
                    }
                }
            } else {
                proof {
                    assert forall|j: int| 0 <= j < kept@.len() implies exists|m: int|
                        0 <= m < k + 1 && #[trigger] kept@[j].0 == #[trigger] orig[m].0 by {
                        let m = choose|m: int| 0 <= m < k && kept@[j].0 == orig[m].0;
                        assert(kept@[j].0 == orig[m].0);
                    }
                }
            }
            proof {
                k = k + 1;
            }
        }
        proof {
            assert(orig.take(k) =~= orig);
            assert(pred =~= (|e: (u64, H)| e.0 != guard@));
            assert forall|i: int| 0 <= i < kept@.len() implies #[trigger] kept@[i].0
                < self.next_id by {
                let m = choose|m: int| 0 <= m < k && kept@[i].0 == orig[m].0;
            }
        }
        self.entries = kept;
    }
}

/// Registers `interceptor` under a fresh id, after those already in force.
/// The guard unregisters only its own hook, even if guards are dropped out of
/// order.
pub fn register<H>(registry: &mut InterceptorRegistry<H>, interceptor: H) -> (guard:
    InterceptorGuard)
    requires
        old(registry).next_id() < u64::MAX,
    ensures
        guard@ == old(registry).next_id(),
        !has_id(old(registry)@, guard@),
        ids_ascending(final(registry)@),
        forall|i: int| 0 <= i < final(registry)@.len() ==> #[trigger] final(registry)@[i].0 <= guard@,
        final(registry)@ == old(registry)@.push((guard@, interceptor)),
        final(registry).next_id() == old(registry).next_id() + 1,
{
    proof {
        use_type_invariant(&*registry);
    }
    let id = registry.next_id;
    let mut entries: Vec<(u64, H)> = Vec::new();
    core::mem::swap(&mut entries, &mut registry.entries);
    entries.push((id, interceptor));
    registry.next_id = id + 1;
    registry.entries = entries;
    InterceptorGuard { id }
}

/// The least value requested among `answers`, where `None` requests nothing;
/// `None` where no answer requests a value.
pub open spec fn least_request(answers: Seq<Option<u64>>) -> Option<u64>
    decreases answers.len(),
{
    if answers.len() == 0 {
        None
    } else {
        let rest = least_request(answers.drop_last());
        match answers.last() {
            None => rest,
            Some(v) => match rest {
                None => Some(v),
                Some(m) => Some(
                    if v < m {
                        v
                    } else {
                        m
                    },
                ),
            },
        }
    }
}

/// Batch sizes as asked for, widened to `u64`.
pub open spec fn batch_requests(answers: Seq<Option<usize>>) -> Seq<Option<u64>> {
    answers.map_values(
        |a: Option<usize>|
            match a {
                Some(v) => Some(v as u64),
                None => None,
            },
    )
}

/// The least value asked for, else the default.
pub open spec fn least_or_default(answers: Seq<Option<u64>>, default: u64) -> u64 {
    match least_request(answers) {
        Some(m) => m,
        None => default,
    }
}

/// The lock TTL in force: the least one asked for, else the default.
pub open spec fn lock_ttl_policy(answers: Seq<Option<u64>>, default: u64) -> u64 {
    least_or_default(answers, default)
}

/// The prewrite batch size in force: the least one asked for, else the
/// default, and never below 1.
pub open spec fn prewrite_batch_size_policy(answers: Seq<Option<usize>>, default: u64) -> u64 {
    let m = least_or_default(batch_requests(answers), default);
    if m < 1 {
        1
    } else {
        m
    }
}

/// Whether some answer asks for heartbeats to be turned off.
pub open spec fn heartbeat_disabled(answers: Seq<bool>) -> bool {
    exists|i: int| 0 <= i < answers.len() && answers[i]
}

proof fn lemma_least_request_step(answers: Seq<Option<u64>>, i: int)
    requires
        0 <= i < answers.len(),
    ensures
        answers.take(i + 1).drop_last() == answers.take(i),
        answers.take(i + 1).last() == answers[i],
{
    assert(answers.take(i + 1).drop_last() =~= answers.take(i));
}

/// The prewrite batch size that the interceptors in force ask for, given each
/// one's answer for the transaction (`None` where it asks nothing): the least
/// size asked for, else `default`, and at least 1.
pub fn prewrite_batch_size(answers: &Vec<Option<usize>>, default: u64) -> (r: u64)
    ensures
        r == prewrite_batch_size_policy(answers@, default),
        r >= 1,
{
    let ghost req = batch_requests(answers@);
    let n = answers.len();
    let mut least: Option<u64> = None;
    let mut i: usize = 0;
    while i < n
        invariant
            n == answers@.len(),
            i <= n,
            req == batch_requests(answers@),
            req.len() == n,
            least == least_request(req.take(i as int)),
        decreases n - i,
    {
        proof {
            lemma_least_request_step(req, i as int);
        }
        match answers[i] {
            Some(size) => {
                let v = size as u64;
                assert(req[i as int] == Some(v));
                least = match least {
                    None => Some(v),
                    Some(m) => Some(
                        if v < m {
                            v
                        } else {
                            m
                        },
                    ),
                };
            },
            None => {
                assert(req[i as int] == None::<u64>);
            },
        }
        i = i + 1;
    }
    assert(req.take(n as int) =~= req);
    let m = match least {
        Some(m) => m,
        None => default,
    };
    if m < 1 {
        1
    } else {
        m
    }
}

/// The lock TTL that the interceptors in force ask for, given each one's
/// answer for the transaction: the least TTL asked for, else `default`.
pub fn lock_ttl(answers: &Vec<Option<u64>>, default: u64) -> (r: u64)
    ensures
        r == lock_ttl_policy(answers@, default),
{
    let n = answers.len();
    let mut least: Option<u64> = None;
    let mut i: usize = 0;
    while i < n
        invariant
            n == answers@.len(),
            i <= n,
            least == least_request(answers@.take(i as int)),
        decreases n - i,
    {
        proof {
            lemma_least_request_step(answers@, i as int);
        }
        match answers[i] {
            Some(v) => {
                least = match least {
                    None => Some(v),
                    Some(m) => Some(
                        if v < m {
                            v
                        } else {
                            m
                        },
                    ),
                };
            },
            None => {},
        }
        i = i + 1;
    }
    assert(answers@.take(n as int) =~= answers@);
    match least {
        Some(m) => m,
        None => default,
    }
}

/// Whether heartbeats are off for the transaction, given the answers of the
/// interceptors asked so far: true as soon as one of them asks for it, so the
/// remaining interceptors need not be asked (see
/// `lemma_heartbeat_early_stop`).
pub fn disable_heartbeat(answers: &Vec<bool>) -> (r: bool)
    ensures
        r == heartbeat_disabled(answers@),
{
    let n = answers.len();
    let mut i: usize = 0;
    while i < n
        invariant
            n == answers@.len(),
            i <= n,
            forall|j: int| 0 <= j < i ==> !answers@[j],
        decreases n - i,
    {
        if answers[i] {
            return true;
        }
        i = i + 1;
    }
    false
}

/// The least request is asked for by some answer and is no greater than any
/// value asked for; where nothing is asked for, there is none.
pub proof fn lemma_least_request_is_least(answers: Seq<Option<u64>>)
    ensures
        match least_request(answers) {
            None => forall|i: int| 0 <= i < answers.len() ==> answers[i] is None,
            Some(m) => {
                &&& exists|i: int| 0 <= i < answers.len() && answers[i] == Some(m)
                &&& forall|i: int|
                    0 <= i < answers.len() && answers[i] is Some ==> m <= answers[i]->0
            },
        },
    decreases answers.len(),
{
    if answers.len() > 0 {
        let rest = answers.drop_last();
        lemma_least_request_is_least(rest);
        assert forall|i: int| 0 <= i < rest.len() implies rest[i] == answers[i] by {}
        match least_request(rest) {
            Some(m) => {
                let k = choose|i: int| 0 <= i < rest.len() && rest[i] == Some(m);
                assert(answers[k] == Some(m));
            },
            None => {},
        }
    }
}

/// The prewrite batch size in force is at least 1, and no greater than any
/// size that an interceptor asks for (nor than the default where none asks).
pub proof fn lemma_prewrite_batch_size_bounds(answers: Seq<Option<usize>>, default: u64)
    ensures
        prewrite_batch_size_policy(answers, default) >= 1,
        forall|i: int|
            0 <= i < answers.len() && answers[i] is Some && answers[i]->0 >= 1 ==> prewrite_batch_size_policy(
                answers,
                default,
            ) <= answers[i]->0,
        (forall|i: int| 0 <= i < answers.len() ==> answers[i] is None) ==> prewrite_batch_size_policy(
            answers,
            default,
        ) == if default < 1 {
            1
        } else {
            default
        },
{
    let req = batch_requests(answers);
    lemma_least_request_is_least(req);
    assert forall|i: int|
        0 <= i < answers.len() && answers[i] is Some && answers[i]->0 >= 1 implies prewrite_batch_size_policy(
        answers,
        default,
    ) <= answers[i]->0 by {
        assert(req[i] == Some(answers[i]->0 as u64));
    }
    if forall|i: int| 0 <= i < answers.len() ==> answers[i] is None {
        if least_request(req) is Some {
            let k = choose|i: int| 0 <= i < req.len() && req[i] == least_request(req);
            assert(answers[k] is None);
        }
    }
}

/// Where no interceptor asks for a lock TTL, the default is in force; where
/// some do, the TTL in force is one of those asked for, no greater than any
/// other asked for, and the default plays no part.
pub proof fn lemma_lock_ttl_policy_is_least_asked(
    answers: Seq<Option<u64>>,
    default: u64,
    other_default: u64,
)
    ensures
        (forall|i: int| 0 <= i < answers.len() ==> answers[i] is None) ==> lock_ttl_policy(
            answers,
            default,
        ) == default,
        (exists|i: int| 0 <= i < answers.len() && answers[i] is Some) ==> {
            &&& exists|i: int|
                0 <= i < answers.len() && answers[i] == Some(lock_ttl_policy(answers, default))
            &&& forall|i: int|
                0 <= i < answers.len() && answers[i] is Some ==> lock_ttl_policy(answers, default)
                    <= answers[i]->0
            &&& lock_ttl_policy(answers, default) == lock_ttl_policy(answers, other_default)
        },
{
    lemma_least_request_is_least(answers);
    if forall|i: int| 0 <= i < answers.len() ==> answers[i] is None {
        if least_request(answers) is Some {
            let k = choose|i: int| 0 <= i < answers.len() && answers[i] == least_request(answers);
            assert(answers[k] is None);
        }
    }
    if exists|i: int| 0 <= i < answers.len() && answers[i] is Some {
        let k = choose|i: int| 0 <= i < answers.len() && answers[i] is Some;
        assert(answers[k] is Some);
    }
}

/// Where no interceptor asks for a prewrite batch size, the default is in
/// force (at least 1); where some do, the size in force is one of those asked
/// for (raised to 1 where it is 0), no greater than any other asked for (so
/// raised), and the default plays no part.
pub proof fn lemma_prewrite_batch_size_is_least_asked(
    answers: Seq<Option<usize>>,
    default: u64,
    other_default: u64,
)
    ensures
        (forall|i: int| 0 <= i < answers.len() ==> answers[i] is None)
            ==> prewrite_batch_size_policy(answers, default) == if default < 1 {
            1
        } else {
            default
        },
        (exists|i: int| 0 <= i < answers.len() && answers[i] is Some) ==> {
            &&& exists|i: int|
                0 <= i < answers.len() && answers[i] is Some && prewrite_batch_size_policy(
                    answers,
                    default,
                ) == if answers[i]->0 < 1 {
                    1
                } else {
                    answers[i]->0 as u64
                }
            &&& forall|i: int|
                0 <= i < answers.len() && answers[i] is Some ==> prewrite_batch_size_policy(
                    answers,
                    default,
                ) <= if answers[i]->0 < 1 {
                    1
                } else {
                    answers[i]->0 as u64
                }
            &&& prewrite_batch_size_policy(answers, default) == prewrite_batch_size_policy(
                answers,
                other_default,
            )
        },
{
    let req = batch_requests(answers);
    lemma_least_request_is_least(req);
    assert forall|i: int| 0 <= i < answers.len() implies #[trigger] req[i] == match answers[i] {
        Some(v) => Some(v as u64),
        None => None::<u64>,
    } by {}
    if forall|i: int| 0 <= i < answers.len() ==> answers[i] is None {
        if least_request(req) is Some {
            let k = choose|i: int| 0 <= i < req.len() && req[i] == least_request(req);
            assert(answers[k] is None);
        }
    }
    if exists|i: int| 0 <= i < answers.len() && answers[i] is Some {
        let k = choose|i: int| 0 <= i < answers.len() && answers[i] is Some;
        assert(req[k] is Some);
        let m = least_request(req)->0;
        let j = choose|i: int| 0 <= i < req.len() && req[i] == Some(m);
        assert(answers[j] is Some && answers[j]->0 as u64 == m);
        assert forall|i: int| 0 <= i < answers.len() && answers[i] is Some implies prewrite_batch_size_policy(
            answers,
            default,
        ) <= if answers[i]->0 < 1 {
            1
        } else {
            answers[i]->0 as u64
        } by {
            assert(req[i] == Some(answers[i]->0 as u64));
        }
    }
}

/// Nobody asked leaves heartbeats on, and one answer alone decides.
pub proof fn lemma_heartbeat_one_answer(answer: bool)
    ensures
        !heartbeat_disabled(Seq::<bool>::empty()),
        heartbeat_disabled(seq![answer]) == answer,
{
    if answer {
        assert(seq![answer][0]);
    }
}

/// Once one answer turns heartbeats off, the answers of the interceptors not
/// yet asked cannot turn them back on; and where none of the answers does,
/// asking every interceptor gives the same result as the answers so far.
pub proof fn lemma_heartbeat_early_stop(asked: Seq<bool>, rest: Seq<bool>)
    ensures
        heartbeat_disabled(asked) ==> heartbeat_disabled(asked + rest),
        heartbeat_disabled(asked + rest) == (heartbeat_disabled(asked) || heartbeat_disabled(rest)),
{
    let all = asked + rest;
    if heartbeat_disabled(asked) {
        let i = choose|i: int| 0 <= i < asked.len() && asked[i];
        assert(all[i]);
    }
    if heartbeat_disabled(rest) {
        let i = choose|i: int| 0 <= i < rest.len() && rest[i];
        assert(all[asked.len() + i]);
    }
    if heartbeat_disabled(all) {
        let i = choose|i: int| 0 <= i < all.len() && all[i];
        if i < asked.len() {
            assert(asked[i]);
        } else {
            assert(rest[i - asked.len()]);
        }
    }
}

/// After `n` registrations, one after the other, the registry holds the
/// interceptors it held before and then the `n` new ones, in the order of
/// registration, each under the id its guard carries.
pub proof fn lemma_n_registrations<H>(states: Seq<Seq<(u64, H)>>, ids: Seq<u64>, hooks: Seq<H>)
    requires
        states.len() == hooks.len() + 1,
        ids.len() == hooks.len(),
        forall|i: int|
            0 <= i < hooks.len() ==> #[trigger] states[i + 1] == states[i].push((ids[i], hooks[i])),
    ensures
        states.last().len() == states[0].len() + hooks.len(),
        states.last().take(states[0].len() as int) == states[0],
        forall|j: int|
            0 <= j < hooks.len() ==> #[trigger] states.last()[states[0].len() + j] == (
                ids[j],
                hooks[j],
            ),
    decreases hooks.len(),
{
    if hooks.len() > 0 {
        let n = hooks.len() - 1;
        let front = states.drop_last();
        assert forall|i: int| 0 <= i < n implies #[trigger] front[i + 1] == front[i].push(
            (ids.drop_last()[i], hooks.drop_last()[i]),
        ) by {
            assert(front[i + 1] == states[i + 1]);
            assert(front[i] == states[i]);
        }
        lemma_n_registrations(front, ids.drop_last(), hooks.drop_last());
        let base = states[0];
        let mid = states[n];
        let last = states[n + 1];
        assert(front.last() == mid);
        assert(last == mid.push((ids[n], hooks[n])));
        assert(last.take(base.len() as int) =~= mid.take(base.len() as int));
        assert forall|j: int| 0 <= j < hooks.len() implies #[trigger] states.last()[base.len() + j]
            == (ids[j], hooks[j]) by {
            if j < n {
                assert(mid[base.len() + j] == (ids.drop_last()[j], hooks.drop_last()[j]));
            }
        }
    }
}

/// Registering an interceptor and handing its guard straight back leaves the
/// interceptors in force as they were.
pub proof fn lemma_register_then_unregister<H>(entries: Seq<(u64, H)>, id: u64, hook: H)
    requires
        !has_id(entries, id),
    ensures
        without_id(entries.push((id, hook)), id) == entries,
{
    reveal(Seq::filter);
    assert(entries.push((id, hook)).drop_last() =~= entries);
    lemma_without_absent_id(entries, id);
}

/// Guards handed back out of the order of registration: of two hooks
/// registered one after the other, handing back the first guard leaves the
/// earlier hooks and the second one; handing back the second too leaves the
/// earlier hooks alone.
pub proof fn lemma_unregister_out_of_order<H>(
    entries: Seq<(u64, H)>,
    a: u64,
    hook_a: H,
    b: u64,
    hook_b: H,
)
    requires
        !has_id(entries, a),
        !has_id(entries, b),
        a != b,
    ensures
        without_id(entries.push((a, hook_a)).push((b, hook_b)), a) == entries.push((b, hook_b)),
        without_id(entries.push((b, hook_b)), b) == entries,
{
    lemma_without_id_push(entries.push((a, hook_a)), (b, hook_b), a);
    lemma_without_id_push(entries, (a, hook_a), a);
    lemma_without_absent_id(entries, a);
    lemma_register_then_unregister(entries, b, hook_b);
}

/// Removal goes by the guard's id, never by the hook: where ids are unique
/// (ascending), handing back the guard of the entry at `k` takes out that
/// entry alone, so a hook registered twice stays once, in its other place.
pub proof fn lemma_unregister_removes_one_entry<H>(entries: Seq<(u64, H)>, k: int)
    requires
        ids_ascending(entries),
        0 <= k < entries.len(),
    ensures
        without_id(entries, entries[k].0) == entries.remove(k),
    decreases entries.len(),
{
    let id = entries[k].0;
    let rest = entries.drop_last();
    let x = entries.last();
    assert(rest.push(x) =~= entries);
    lemma_without_id_push(rest, x, id);
    if k == entries.len() - 1 {
        assert(!has_id(rest, id)) by {
            if has_id(rest, id) {
                let j = choose|j: int| 0 <= j < rest.len() && rest[j].0 == id;
                assert(entries[j].0 < entries[k].0);
            }
        }
        lemma_without_absent_id(rest, id);
        assert(entries.remove(k) =~= rest);
    } else {
        assert(x.0 != id) by {
            assert(entries[k].0 < entries[entries.len() - 1].0);
        }
        assert(ids_ascending(rest)) by {
            assert forall|i: int, j: int| 0 <= i < j < rest.len() implies rest[i].0 < rest[j].0 by {
                assert(rest[i] == entries[i]);
                assert(rest[j] == entries[j]);
            }
        }
        assert(rest[k] == entries[k]);
        lemma_unregister_removes_one_entry(rest, k);
        assert(entries.remove(k) =~= rest.remove(k).push(x));
    }
}

/// Taking out an id that no entry holds changes nothing.
pub proof fn lemma_without_absent_id<H>(entries: Seq<(u64, H)>, id: u64)
    requires
        !has_id(entries, id),
    ensures
        without_id(entries, id) == entries,
    decreases entries.len(),
{
    reveal(Seq::filter);
    if entries.len() > 0 {
        let rest = entries.drop_last();
        assert(!has_id(rest, id)) by {
            if has_id(rest, id) {
                let k = choose|i: int| 0 <= i < rest.len() && rest[i].0 == id;
                assert(entries[k] == rest[k]);
            }
        }
        lemma_without_absent_id(rest, id);
        assert(entries.last() == entries[entries.len() - 1]);
        assert(rest.push(entries.last()) =~= entries);
    }
}

/// Handing back two guards gives the same interceptors in force whichever is
/// handed back first.
pub proof fn lemma_unregister_order_irrelevant<H>(entries: Seq<(u64, H)>, a: u64, b: u64)
    ensures
        without_id(without_id(entries, a), b) == without_id(without_id(entries, b), a),
    decreases entries.len(),
{
    reveal(Seq::filter);
    if entries.len() > 0 {
        let rest = entries.drop_last();
        let x = entries.last();
        lemma_unregister_order_irrelevant(rest, a, b);
        lemma_without_id_push(without_id(rest, a), x, b);
        lemma_without_id_push(without_id(rest, b), x, a);
    }
}

proof fn lemma_without_id_push<H>(entries: Seq<(u64, H)>, x: (u64, H), id: u64)
    ensures
        without_id(entries.push(x), id) == if x.0 != id {
            without_id(entries, id).push(x)
        } else {
            without_id(entries, id)
        },
{
    reveal(Seq::filter);
    assert(entries.push(x).drop_last() =~= entries);
}

/// Handing back a guard takes out every entry under its id and keeps every
/// other entry.
pub proof fn lemma_unregister_keeps_others<H>(entries: Seq<(u64, H)>, id: u64)
    ensures
        forall|j: int|
            0 <= j < without_id(entries, id).len() ==> #[trigger] without_id(entries, id)[j].0 != id,
        forall|i: int|
            0 <= i < entries.len() && entries[i].0 != id ==> without_id(entries, id).contains(
                #[trigger] entries[i],
            ),
        !has_id(without_id(entries, id), id),
{
    broadcast use vstd::seq_lib::group_filter_ensures;
}

} // verus!
