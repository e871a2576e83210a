//! The read-only RPC policy that a request plan carries, and the logs of the
//! dispatch attempts made under it.
//!
//! Every copy of a `ReadOptions` (the plan's own and those of the shards it
//! spawns) names one shared attempt log through its `ReadStats` handle; the
//! logs themselves live in a `ReadStatsStore`, so that an attempt recorded
//! through any copy shows in the log of all of them.
use crate::duration::duration_eq;
use crate::kvrpcpb::{Context, Peer};
use std::time::Duration;
use vstd::prelude::*;
use vstd::std_specs::cmp::PartialEqSpecImpl;

verus! {

/// The store that a request with this context was sent to; 0 where the
/// request carries no context, or a context without a peer.
pub open spec fn context_store_id(context: Option<Context>) -> u64 {
    match context {
        Some(c) => match c.peer {
            Some(p) => p.store_id,
            None => 0,
        },
        None => 0,
    }
}

/// An attempt is charged to the store of the peer that the request was
/// routed to, whatever else its context says (a replica read too); two
/// contexts with the same peer are charged to the same store; and the three
/// kinds of read are charged alike; a request without a context, or whose
/// context names no peer, and any other request, are charged to no store.
pub proof fn lemma_charged_to_routed_peer(c: Context, other: Context, p: Peer)
    requires
        c.peer == Some(p),
        other.peer == c.peer,
    ensures
        context_store_id(Some(c)) == p.store_id,
        context_store_id(Some(other)) == context_store_id(Some(c)),
        context_store_id(Some((Context { peer: Some(p), replica_read: true }))) == p.store_id,
        request_store_id(ReadRequest::Get(Some(c))) == p.store_id,
        request_store_id(ReadRequest::BatchGet(Some(c))) == p.store_id,
        request_store_id(ReadRequest::Scan(Some(c))) == p.store_id,
        request_store_id(ReadRequest::Other) == 0,
        context_store_id(None) == 0,
        context_store_id(Some((Context { peer: None, replica_read: c.replica_read }))) == 0,
{
}

/// A dispatched request, as far as the attempt log reads it: the kind of the
/// request and, for a read, the routing context it carries.
#[derive(Clone, Copy, Debug)]
pub enum ReadRequest {
    Get(Option<Context>),
    BatchGet(Option<Context>),
    Scan(Option<Context>),
    /// Any other kind of request.
    Other,
}

/// The store an attempt with `request` is charged to: the peer's store in
/// the context of a Get, BatchGet or Scan request, else 0.
pub open spec fn request_store_id(request: ReadRequest) -> u64 {
    match request {
        ReadRequest::Get(c) => context_store_id(c),
        ReadRequest::BatchGet(c) => context_store_id(c),
        ReadRequest::Scan(c) => context_store_id(c),
        ReadRequest::Other => 0,
    }
}

/// One completed dispatch of a read request.
#[derive(Clone, Debug)]
pub struct ReadAttempt {
    pub label: String,
    pub store_id: u64,
    pub elapsed: Duration,
    pub timed_out: bool,
}

/// Whether `a` records the attempt made with these values.
pub open spec fn attempt_matches(
    a: ReadAttempt,
    label: Seq<char>,
    store_id: u64,
    elapsed: Duration,
    timed_out: bool,
) -> bool {
    &&& a.label@ == label
    &&& a.store_id == store_id
    &&& a.elapsed == elapsed
    &&& a.timed_out == timed_out
}

fn copy_attempt(a: &ReadAttempt) -> (r: ReadAttempt)
    ensures
        r == *a,
{
    ReadAttempt {
        label: a.label.clone(),
        store_id: a.store_id,
        elapsed: a.elapsed,
        timed_out: a.timed_out,
    }
}

/// Counts completed dispatch attempts, never inferred replica or region
/// counts.  A `ReadStats` is a handle on one attempt log of a
/// `ReadStatsStore`; its copies all name that same log.
#[derive(Clone, Copy, Debug, PartialEq, Eq, Structural)]
pub struct ReadStats {
    id: u64,
}

/// The attempt logs, one per `ReadStats` handle that the store issued.
pub struct ReadStatsStore {
    logs: Vec<Vec<ReadAttempt>>,
}

impl ReadStatsStore {
    /// Whether `stats` names a log of this store.
    pub closed spec fn holds(&self, stats: ReadStats) -> bool {
        stats.id < self.logs@.len()
    }

    /// The number of logs this store has issued.
    pub closed spec fn count(&self) -> nat {
        self.logs@.len()
    }

    /// The attempts in the log that `stats` names, oldest first; empty for
    /// a handle this store did not issue.
    pub closed spec fn log(&self, stats: ReadStats) -> Seq<ReadAttempt> {
        if stats.id < self.logs@.len() {
            self.logs@[stats.id as int]@
        } else {
            Seq::empty()
        }
    }

    /// A store with no log yet.
    pub fn new() -> (s: ReadStatsStore)
        ensures
            s.count() == 0,
    {
        ReadStatsStore { logs: Vec::new() }
    }

    /// Issues a handle on a new, empty log; every other log stays as it was.
    pub fn open(&mut self) -> (stats: ReadStats)
        requires
            old(self).count() < u64::MAX,
        ensures
            !old(self).holds(stats),
            final(self).holds(stats),
            final(self).log(stats) == Seq::<ReadAttempt>::empty(),
            final(self).count() == old(self).count() + 1,
            forall|other: ReadStats|
                old(self).holds(other) ==> final(self).holds(other) && #[trigger] final(self).log(other)
                    == old(self).log(other),
    {
        let id = self.logs.len() as u64;
        self.logs.push(Vec::new());
        ReadStats { id }
    }

    /// Whether `stats` names a log of this store.
    pub fn issued(&self, stats: &ReadStats) -> (r: bool)
        ensures
            r == self.holds(*stats),
    {
        stats.id < self.logs.len() as u64
    }

    /// Whether another log can still be given a handle of its own.
    pub fn can_open(&self) -> (r: bool)
        ensures
            r == (self.count() < u64::MAX),
    {
        (self.logs.len() as u64) < u64::MAX
    }

    /// Takes the attempts out of the log that `stats` names, leaving it
    /// empty; every other log stays as it was.
    pub fn release(&mut self, stats: &ReadStats) -> (r: Vec<ReadAttempt>)
        ensures
            r@ == old(self).log(*stats),
            final(self).count() == old(self).count(),
            final(self).log(*stats) == Seq::<ReadAttempt>::empty(),
            forall|other: ReadStats|
                other != *stats ==> #[trigger] final(self).log(other) == old(self).log(other),
            forall|other: ReadStats| #[trigger]
                final(self).holds(other) == old(self).holds(other),
    {
        let i = stats.id;
        if i < self.logs.len() as u64 {
            let mut taken: Vec<ReadAttempt> = Vec::new();
            std::mem::swap(&mut taken, &mut self.logs[i as usize]);
            proof {
                assert forall|other: ReadStats| other != *stats implies #[trigger] self.log(other)
                    == old(self).log(other) by {
                    if other.id < self.logs@.len() {
                        assert(other.id != i);
                    }
                }
            }
            taken
        } else {
            Vec::new()
        }
    }
}

impl ReadStats {
    /// The attempts recorded so far in the log this handle names, oldest
    /// first.
    pub fn snapshot(&self, store: &ReadStatsStore) -> (r: Vec<ReadAttempt>)
        ensures
            r@ == store.log(*self),
    {
        let mut r: Vec<ReadAttempt> = Vec::new();
        if self.id >= store.logs.len() as u64 {
            return r;
        }
        let log = &store.logs[self.id as usize];
        let n = log.len();
        let mut i: usize = 0;
        while i < n
            invariant
                n == log@.len(),
                i <= n,
                r@ == log@.take(i as int),
            decreases n - i,
        {
            r.push(copy_attempt(&log[i]));
            proof {
                assert(log@.take(i + 1) =~= log@.take(i as int).push(log@[i as int]));
            }
            i = i + 1;
        }
        proof {
            assert(log@.take(n as int) =~= log@);
        }
        r
    }

    /// Appends one completed attempt to the log this handle names; every
    /// other log stays as it was.
    pub fn record_attempt(
        &self,
        store: &mut ReadStatsStore,
        label: &str,
        store_id: u64,
        elapsed: Duration,
        timed_out: bool,
    )
        requires
            old(store).holds(*self),
        ensures
            final(store).log(*self).len() == old(store).log(*self).len() + 1,
            final(store).log(*self).drop_last() == old(store).log(*self),
            attempt_matches(final(store).log(*self).last(), label@, store_id, elapsed, timed_out),
            final(store).count() == old(store).count(),
            forall|other: ReadStats|
                other != *self ==> #[trigger] final(store).log(other) == old(store).log(other),
            forall|other: ReadStats| #[trigger]
                final(store).holds(other) == old(store).holds(other),
    {
        let i = self.id;
        let n: usize = store.logs.len();
        assert(i < n);
        let k: usize = i as usize;
        let attempt = ReadAttempt { label: label.to_owned(), store_id, elapsed, timed_out };
        let ghost before = store.logs@[i as int]@;
        store.logs[k].push(attempt);
        proof {
            assert(store.logs@[i as int]@.drop_last() =~= before);
            assert forall|other: ReadStats| other != *self implies #[trigger] store.log(other)
                == old(store).log(other) by {
                if other.id < store.logs@.len() {
                    assert(other.id != i);
                }
            }
        }
    }

    /// Records an attempt made with `request`: it is charged to the peer's
    /// store in the context of a Get, BatchGet or Scan request, and to store
    /// 0 for any other request, or one without a routed context.
    pub fn record(
        &self,
        store: &mut ReadStatsStore,
        label: &str,
        request: ReadRequest,
        elapsed: Duration,
        timed_out: bool,
    )
        requires
            old(store).holds(*self),
        ensures
            final(store).log(*self).len() == old(store).log(*self).len() + 1,
            final(store).log(*self).drop_last() == old(store).log(*self),
            attempt_matches(
                final(store).log(*self).last(),
                label@,
                request_store_id(request),
                elapsed,
                timed_out,
            ),
            final(store).count() == old(store).count(),
            forall|other: ReadStats|
                other != *self ==> #[trigger] final(store).log(other) == old(store).log(other),
            forall|other: ReadStats| #[trigger]
                final(store).holds(other) == old(store).holds(other),
    {
        let context = match request {
            ReadRequest::Get(c) => c,
            ReadRequest::BatchGet(c) => c,
            ReadRequest::Scan(c) => c,
            ReadRequest::Other => None,
        };
        let store_id = match context {
            Some(c) => match c.peer {
                Some(p) => p.store_id,
                None => 0,
            },
            None => 0,
        };
        self.record_attempt(store, label, store_id, elapsed, timed_out);
    }
}

/// Read-only RPC policy carried by the request plan, including spawned
/// shards: every copy names the same attempt log.
#[derive(Clone, Copy, Debug)]
pub struct ReadOptions {
    pub timeout: Duration,
    pub stats: ReadStats,
}

/// Whether two policies are the same: the same deadline, and the very same
/// attempt log.
pub open spec fn same_options(a: ReadOptions, b: ReadOptions) -> bool {
    a.timeout == b.timeout && a.stats == b.stats
}

impl PartialEq for ReadOptions {
    fn eq(&self, other: &Self) -> (r: bool) {
        duration_eq(&self.timeout, &other.timeout) && self.stats == other.stats
    }
}

impl PartialEqSpecImpl for ReadOptions {
    open spec fn obeys_eq_spec() -> bool {
        true
    }

    open spec fn eq_spec(&self, other: &ReadOptions) -> bool {
        same_options(*self, *other)
    }
}

impl ReadOptions {
    /// A policy with the given per-attempt deadline and a new, empty attempt
    /// log in `store`.
    pub fn new(timeout: Duration, store: &mut ReadStatsStore) -> (o: ReadOptions)
        requires
            old(store).count() < u64::MAX,
        ensures
            o.timeout == timeout,
            !old(store).holds(o.stats),
            final(store).holds(o.stats),
            final(store).log(o.stats) == Seq::<ReadAttempt>::empty(),
            final(store).count() == old(store).count() + 1,
            forall|other: ReadStats|
                old(store).holds(other) ==> final(store).holds(other) && #[trigger] final(store).log(other)
                    == old(store).log(other),
    {
        let stats = store.open();
        ReadOptions { timeout, stats }
    }
}

/// A copy of the options (the plan's, or a spawned shard's) stays equal to
/// the options it was copied from, and an attempt recorded through the copy
/// ends the log of the original too: all copies share one log.
pub proof fn lemma_copies_share_one_log(
    before: ReadStatsStore,
    after: ReadStatsStore,
    original: ReadOptions,
    copy: ReadOptions,
    attempt: ReadAttempt,
)
    requires
        copy == original,
        after.log(copy.stats) == before.log(copy.stats).push(attempt),
    ensures
        same_options(original, copy),
        after.log(original.stats) == before.log(original.stats).push(attempt),
        after.log(original.stats).last() == attempt,
{
}

/// Each recorded attempt adds exactly one entry: a log that went through `n`
/// recordings, one after the other, holds `n` more entries, and the earlier
/// ones unchanged.
pub proof fn lemma_n_records_n_entries(stores: Seq<ReadStatsStore>, stats: ReadStats)
    requires
        stores.len() >= 1,
        forall|i: int|
            0 <= i < stores.len() - 1 ==> {
                &&& #[trigger] stores[i + 1].log(stats).len() == stores[i].log(stats).len() + 1
                &&& stores[i + 1].log(stats).drop_last() == stores[i].log(stats)
            },
    ensures
        stores.last().log(stats).len() == stores[0].log(stats).len() + stores.len() - 1,
        stores.last().log(stats).take(stores[0].log(stats).len() as int) == stores[0].log(stats),
    decreases stores.len(),
{
    if stores.len() > 1 {
        let front = stores.drop_last();
        assert forall|i: int| 0 <= i < front.len() - 1 implies {
            &&& #[trigger] front[i + 1].log(stats).len() == front[i].log(stats).len() + 1
            &&& front[i + 1].log(stats).drop_last() == front[i].log(stats)
        } by {
            assert(front[i + 1] == stores[i + 1]);
            assert(front[i] == stores[i]);
        }
        lemma_n_records_n_entries(front, stats);
        let k = stores.len() - 2;
        assert(front.last() == stores[k]);
        let first = stores[0].log(stats);
        let mid = stores[k].log(stats);
        let last = stores[k + 1].log(stats);
        assert(stores[k + 1].log(stats).len() == stores[k].log(stats).len() + 1);
        assert(last.drop_last() == mid);
        assert(mid.take(first.len() as int) == first);
        assert(last.take(first.len() as int) =~= mid.take(first.len() as int));
    }
}

} // verus!
