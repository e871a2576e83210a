//! Shared locks, as TiKV reports them: a wrapper lock whose
//! `shared_lock_infos` name the transactions that share it.
use crate::error::Error;
use crate::kvrpcpb::LockInfo;
use vstd::prelude::*;

verus! {

/// Whether some lock among `locks` is a shared-lock wrapper.
pub open spec fn any_shared_lock(locks: Seq<LockInfo>) -> bool {
    exists|i: int| 0 <= i < locks.len() && #[trigger] locks[i].shared_lock_infos@.len() > 0
}

/// Whether transaction `txn` is among the holders of a shared lock in
/// `locks`.
pub open spec fn any_shared_holder(locks: Seq<LockInfo>, txn: u64) -> bool {
    exists|i: int, j: int|
        0 <= i < locks.len() && 0 <= j < locks[i].shared_lock_infos@.len()
            && #[trigger] locks[i].shared_lock_infos@[j].lock_version == txn
}

/// A lock at any position whose `shared_lock_infos` is not empty makes the
/// locks hold a shared-lock wrapper.
pub proof fn lemma_shared_lock_anywhere(locks: Seq<LockInfo>, i: int)
    requires
        0 <= i < locks.len(),
        locks[i].shared_lock_infos@.len() > 0,
    ensures
        any_shared_lock(locks),
{
}

/// No shared-lock wrapper is among no locks, and two runs of locks put
/// together hold one exactly where one of them does.
pub proof fn lemma_shared_lock_concat(a: Seq<LockInfo>, b: Seq<LockInfo>)
    ensures
        !any_shared_lock(Seq::<LockInfo>::empty()),
        any_shared_lock(a + b) == (any_shared_lock(a) || any_shared_lock(b)),
{
    let all = a + b;
    if any_shared_lock(a) {
        let i = choose|i: int| 0 <= i < a.len() && #[trigger] a[i].shared_lock_infos@.len() > 0;
        assert(all[i] == a[i]);
    }
    if any_shared_lock(b) {
        let i = choose|i: int| 0 <= i < b.len() && #[trigger] b[i].shared_lock_infos@.len() > 0;
        assert(all[a.len() + i] == b[i]);
    }
    if any_shared_lock(all) {
        let i = choose|i: int| 0 <= i < all.len() && #[trigger] all[i].shared_lock_infos@.len() > 0;
        if i < a.len() {
            assert(a[i] == all[i]);
        } else {
            assert(b[i - a.len()] == all[i]);
        }
    }
}

/// Every holder named by a shared lock at any position is found among the
/// holders; and a transaction that holds a shared lock can only be found
/// where there is a shared-lock wrapper.
pub proof fn lemma_shared_holder_anywhere(locks: Seq<LockInfo>, i: int, j: int, txn: u64)
    requires
        0 <= i < locks.len(),
        0 <= j < locks[i].shared_lock_infos@.len(),
    ensures
        any_shared_holder(locks, locks[i].shared_lock_infos@[j].lock_version),
        any_shared_holder(locks, txn) ==> any_shared_lock(locks),
{
    if any_shared_holder(locks, txn) {
        let (a, b) = choose|a: int, b: int|
            0 <= a < locks.len() && 0 <= b < locks[a].shared_lock_infos@.len()
                && #[trigger] locks[a].shared_lock_infos@[b].lock_version == txn;
        assert(locks[a].shared_lock_infos@.len() > 0);
    }
}

/// No transaction holds a shared lock among no locks, and it holds one among
/// two runs of locks put together exactly where it holds one in either.
pub proof fn lemma_shared_holder_concat(a: Seq<LockInfo>, b: Seq<LockInfo>, txn: u64)
    ensures
        !any_shared_holder(Seq::<LockInfo>::empty(), txn),
        any_shared_holder(a + b, txn) == (any_shared_holder(a, txn) || any_shared_holder(b, txn)),
{
    let all = a + b;
    if any_shared_holder(a, txn) {
        let (i, j) = choose|i: int, j: int|
            0 <= i < a.len() && 0 <= j < a[i].shared_lock_infos@.len()
                && #[trigger] a[i].shared_lock_infos@[j].lock_version == txn;
        assert(all[i] == a[i]);
        assert(all[i].shared_lock_infos@[j].lock_version == txn);
    }
    if any_shared_holder(b, txn) {
        let (i, j) = choose|i: int, j: int|
            0 <= i < b.len() && 0 <= j < b[i].shared_lock_infos@.len()
                && #[trigger] b[i].shared_lock_infos@[j].lock_version == txn;
        assert(all[a.len() + i] == b[i]);
        assert(all[a.len() + i].shared_lock_infos@[j].lock_version == txn);
    }
    if any_shared_holder(all, txn) {
        let (i, j) = choose|i: int, j: int|
            0 <= i < all.len() && 0 <= j < all[i].shared_lock_infos@.len()
                && #[trigger] all[i].shared_lock_infos@[j].lock_version == txn;
        if i < a.len() {
            assert(a[i] == all[i]);
            assert(a[i].shared_lock_infos@[j].lock_version == txn);
        } else {
            assert(b[i - a.len()] == all[i]);
            assert(b[i - a.len()].shared_lock_infos@[j].lock_version == txn);
        }
    }
}

/// Whether `locks` hold a shared-lock wrapper.
pub fn contains_shared_locks(locks: &[LockInfo]) -> (r: bool)
    ensures
        r == any_shared_lock(locks@),
{
    let n = locks.len();
    let mut i: usize = 0;
    while i < n
        invariant
            n == locks@.len(),
            i <= n,
            forall|j: int| 0 <= j < i ==> #[trigger] locks@[j].shared_lock_infos@.len() == 0,
        decreases n - i,
    {
        if locks[i].shared_lock_infos.len() > 0 {
            return true;
        }
        i = i + 1;
    }
    false
}

/// Refuses to treat `locks` as ordinary cleanup targets when one of them is a
/// shared-lock wrapper: resolving it as an ordinary lock would act on the
/// wrapper rather than on its holders.
pub fn reject_shared_locks(locks: &[LockInfo]) -> (r: Result<(), Error>)
    ensures
        r is Err <==> any_shared_lock(locks@),
        r matches Err(e) ==> e is InternalError,
{
    if contains_shared_locks(locks) {
        Err(
            Error::InternalError {
                message: "shared locks cannot be resolved as ordinary locks".to_owned(),
            },
        )
    } else {
        Ok(())
    }
}

/// Whether transaction `txn` holds one of the shared locks in `locks`.
pub fn shared_locks_contain_transaction(locks: &[LockInfo], txn: u64) -> (r: bool)
    ensures
        r == any_shared_holder(locks@, txn),
{
    let n = locks.len();
    let mut i: usize = 0;
    while i < n
        invariant
            n == locks@.len(),
            i <= n,
            forall|a: int, b: int|
                0 <= a < i && 0 <= b < locks@[a].shared_lock_infos@.len()
                    ==> #[trigger] locks@[a].shared_lock_infos@[b].lock_version != txn,
        decreases n - i,
    {
        let holders = &locks[i].shared_lock_infos;
        let m = holders.len();
        let mut j: usize = 0;
        while j < m
            invariant
                n == locks@.len(),
                i < n,
                holders@ == locks@[i as int].shared_lock_infos@,
                m == holders@.len(),
                j <= m,
                forall|b: int| 0 <= b < j ==> #[trigger] holders@[b].lock_version != txn,
            decreases m - j,
        {
            if holders[j].lock_version == txn {
                assert(locks@[i as int].shared_lock_infos@[j as int].lock_version == txn);
                return true;
            }
            j = j + 1;
        }
        i = i + 1;
    }
    false
}

} // verus!
