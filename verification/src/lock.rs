//! The advisory locking protocol shared by every database handle that is open
//! against the same logical database.
//!
//! A handle's own lock is a [`LockKind`], totally ordered
//! `Unlocked < Shared < Reserved < Pending < Exclusive`. The process-wide
//! [`LockState`] records how many handles currently hold `Shared` and whether
//! some handle has announced write intent. A handle changes its own kind and
//! the shared state together in one step; [`lock_request`] is the
//! specification of that transition table, and
//! [`lemma_request_preserves_inv`] together with [`lemma_mutual_exclusion`]
//! show that under any sequence of requests at most one handle ever holds
//! `Exclusive`, and only while no handle holds `Shared`.
//!
//! The protocol is advisory and cooperative: a denied request is a retry
//! signal, not an error, and the caller is expected to back off and ask
//! again. Only safety is stated here; nothing below claims that a `Pending`
//! handle is eventually promoted if new readers keep arriving.

use vstd::prelude::*;

verus! {

/// A handle's lock kind. `Unlocked` stands for holding no lock at all; the
/// five kinds are totally ordered
/// `Unlocked < Shared < Reserved < Pending < Exclusive`.
#[derive(Clone, Copy, Debug, PartialEq, Eq, Structural)]
pub enum LockKind {
    Unlocked,
    Shared,
    Reserved,
    Pending,
    Exclusive,
}

/// Write intent recorded in the shared [`LockState`]: either one handle holds
/// `Reserved`, or one handle holds `Pending` or `Exclusive`.
#[derive(Clone, Copy, Debug, PartialEq, Eq, Structural)]
pub enum WriteIntent {
    Reserved,
    Exclusive,
}

impl LockKind {
    /// Position of this kind in the total order, `0` for `Unlocked` up to
    /// `4` for `Exclusive`.
    pub open spec fn level(self) -> int {
        match self {
            LockKind::Unlocked => 0,
            LockKind::Shared => 1,
            LockKind::Reserved => 2,
            LockKind::Pending => 3,
            LockKind::Exclusive => 4,
        }
    }

    /// True of the kinds above `Shared`, the ones that carry write intent.
    pub open spec fn over_shared(self) -> bool {
        self.level() > 1
    }

    /// Executable form of [`LockKind::level`].
    pub fn level_u8(self) -> (r: u8)
        ensures
            r as int == self.level(),
    {
        match self {
            LockKind::Unlocked => 0,
            LockKind::Shared => 1,
            LockKind::Reserved => 2,
            LockKind::Pending => 3,
            LockKind::Exclusive => 4,
        }
    }
}

/// The process-wide state shared by every handle open against the same
/// logical database: how many handles hold `Shared`, and whether some handle
/// holds a kind above `Shared`. One value of this type exists per database;
/// callers that interleave handles guard it with a mutual-exclusion primitive
/// and pass it to each operation explicitly.
pub struct LockState {
    /// Number of handles currently holding `Shared`.
    pub read: usize,
    /// Write intent of the single handle, if any, holding a kind above
    /// `Shared`.
    pub write: Option<WriteIntent>,
}

/// The mathematical value of a [`LockState`].
pub ghost struct LockStateModel {
    pub read: int,
    pub write: Option<WriteIntent>,
}

impl View for LockState {
    type V = LockStateModel;

    open spec fn view(&self) -> LockStateModel {
        LockStateModel { read: self.read as int, write: self.write }
    }
}

impl LockState {
    /// A fresh shared state: no readers, no write intent.
    pub fn new() -> (r: LockState)
        ensures
            r@ == (LockStateModel { read: 0, write: Option::<WriteIntent>::None }),
    {
        LockState { read: 0, write: None }
    }
}

/// The outcome of one lock request: the handle's new kind, the shared state
/// after the step, and whether the request was granted.
pub ghost struct LockStep {
    pub lock: LockKind,
    pub state: LockStateModel,
    pub granted: bool,
}

/// The transition table of the locking protocol. A handle currently holding
/// `cur`, with the shared state at `st`, requests `to`; the result says what
/// the handle holds afterwards, how the shared state changed, and whether the
/// request was granted.
///
/// - Requesting the current kind again is a no-op success.
/// - `Unlocked` is always granted: releasing `Shared` decrements the reader
///   count, releasing a kind above `Shared` clears the write intent.
/// - `Shared` is denied while another handle's `Exclusive` intent is
///   recorded (unless the requester itself holds above `Shared`); otherwise
///   the reader count grows, and a requester descending from above `Shared`
///   clears its intent.
/// - `Reserved` requires holding exactly `Shared` with no intent recorded;
///   the requester stops counting as a reader and records `Reserved` intent.
/// - `Pending` can never be requested directly; it only arises from a denied
///   `Exclusive` request.
/// - `Exclusive` is denied while any intent is recorded, unless the requester
///   itself holds above `Shared`. Otherwise `Exclusive` intent is recorded,
///   and the handle becomes `Exclusive` (granted) if no readers remain, else
///   `Pending` (denied, to be retried). Denying on *any* recorded intent, not
///   only on `Exclusive` intent, is essential: were a `Shared` holder allowed
///   to ascend past another handle's `Reserved` intent, that handle could
///   later ascend too, and two handles would hold `Exclusive` together. The
///   mutual-exclusion lemmas below rest on the stricter condition.
pub open spec fn lock_request(cur: LockKind, st: LockStateModel, to: LockKind) -> LockStep {
    if to == cur {
        LockStep { lock: cur, state: st, granted: true }
    } else {
        match to {
            LockKind::Unlocked => LockStep {
                lock: LockKind::Unlocked,
                state: LockStateModel {
                    read: if cur is Shared {
                        st.read - 1
                    } else {
                        st.read
                    },
                    write: if cur.over_shared() {
                        Option::<WriteIntent>::None
                    } else {
                        st.write
                    },
                },
                granted: true,
            },
            LockKind::Shared => {
                if st.write == Some(WriteIntent::Exclusive) && !cur.over_shared() {
                    LockStep { lock: cur, state: st, granted: false }
                } else {
                    LockStep {
                        lock: LockKind::Shared,
                        state: LockStateModel {
                            read: st.read + 1,
                            write: if cur.over_shared() {
                                Option::<WriteIntent>::None
                            } else {
                                st.write
                            },
                        },
                        granted: true,
                    }
                }
            },
            LockKind::Reserved => {
                if st.write is Some || cur != LockKind::Shared {
                    LockStep { lock: cur, state: st, granted: false }
                } else {
                    LockStep {
                        lock: LockKind::Reserved,
                        state: LockStateModel {
                            read: st.read - 1,
                            write: Some(WriteIntent::Reserved),
                        },
                        granted: true,
                    }
                }
            },
            LockKind::Pending => LockStep { lock: cur, state: st, granted: false },
            LockKind::Exclusive => {
                if st.write is Some && !cur.over_shared() {
                    LockStep { lock: cur, state: st, granted: false }
                } else {
                    let read = if cur is Shared {
                        st.read - 1
                    } else {
                        st.read
                    };
                    if read == 0 {
                        LockStep {
                            lock: LockKind::Exclusive,
                            state: LockStateModel { read, write: Some(WriteIntent::Exclusive) },
                            granted: true,
                        }
                    } else {
                        LockStep {
                            lock: LockKind::Pending,
                            state: LockStateModel { read, write: Some(WriteIntent::Exclusive) },
                            granted: false,
                        }
                    }
                }
            },
        }
    }
}

/// Number of handles in `locks` currently holding `Shared`.
pub open spec fn num_shared(locks: Seq<LockKind>) -> int
    decreases locks.len(),
{
    if locks.len() == 0 {
        0
    } else {
        num_shared(locks.drop_last()) + if locks.last() is Shared {
            1int
        } else {
            0int
        }
    }
}

/// The coordinator invariant, over the lock kinds of all handles sharing one
/// state. It holds initially and is preserved by every request; mutual
/// exclusion is a direct consequence.
pub open spec fn coordinator_inv(locks: Seq<LockKind>, st: LockStateModel) -> bool {
    &&& st.read == num_shared(locks)
    &&& forall|i: int, j: int|
        0 <= i < locks.len() && 0 <= j < locks.len() && (#[trigger] locks[i]).over_shared() && (
        #[trigger] locks[j]).over_shared() ==> i == j
    &&& (st.write is None <==> forall|i: int|
        0 <= i < locks.len() ==> !(#[trigger] locks[i]).over_shared())
    &&& forall|i: int|
        0 <= i < locks.len() && (#[trigger] locks[i]) is Reserved ==> st.write == Some(
            WriteIntent::Reserved,
        )
    &&& forall|i: int|
        0 <= i < locks.len() && ((#[trigger] locks[i]) is Pending || locks[i] is Exclusive)
            ==> st.write == Some(WriteIntent::Exclusive)
    &&& forall|i: int| 0 <= i < locks.len() && (#[trigger] locks[i]) is Exclusive ==> st.read == 0
}

/// Replacing one handle's kind changes the reader count by exactly the
/// difference the two kinds contribute.
pub proof fn lemma_num_shared_update(locks: Seq<LockKind>, i: int, v: LockKind)
    requires
        0 <= i < locks.len(),
    ensures
        num_shared(locks.update(i, v)) == num_shared(locks) + (if v is Shared {
            1int
        } else {
            0int
        }) - (if locks[i] is Shared {
            1int
        } else {
            0int
        }),
    decreases locks.len(),
{
    if i == locks.len() - 1 {
        assert(locks.update(i, v).drop_last() =~= locks.drop_last());
    } else {
        assert(locks.update(i, v).drop_last() =~= locks.drop_last().update(i, v));
        lemma_num_shared_update(locks.drop_last(), i, v);
    }
}

/// The reader count never goes below the contribution of any one `Shared`
/// holder: it is non-negative, and positive if some handle holds `Shared`.
pub proof fn lemma_num_shared_bounds(locks: Seq<LockKind>)
    ensures
        num_shared(locks) >= 0,
        forall|i: int|
            0 <= i < locks.len() && (#[trigger] locks[i]) is Shared ==> num_shared(locks) >= 1,
    decreases locks.len(),
{
    if locks.len() > 0 {
        lemma_num_shared_bounds(locks.drop_last());
        assert forall|i: int|
            0 <= i < locks.len() && (#[trigger] locks[i]) is Shared implies num_shared(locks)
            >= 1 by {
            if i < locks.len() - 1 {
                assert(locks.drop_last()[i] is Shared);
            }
        }
    }
}

/// A reader count of zero means no handle holds `Shared`.
pub proof fn lemma_num_shared_zero(locks: Seq<LockKind>)
    requires
        num_shared(locks) == 0,
    ensures
        forall|i: int| 0 <= i < locks.len() ==> !((#[trigger] locks[i]) is Shared),
{
    lemma_num_shared_bounds(locks);
}

/// Every single lock request preserves the coordinator invariant: handle `i`
/// requests `to`, its own kind and the shared state step to the outcome of
/// [`lock_request`], and the invariant holds of the result.
pub proof fn lemma_request_preserves_inv(
    locks: Seq<LockKind>,
    st: LockStateModel,
    i: int,
    to: LockKind,
)
    requires
        coordinator_inv(locks, st),
        0 <= i < locks.len(),
    ensures
        ({
            let step = lock_request(locks[i], st, to);
            coordinator_inv(locks.update(i, step.lock), step.state)
        }),
{
    let cur = locks[i];
    let step = lock_request(cur, st, to);
    let st2 = step.state;
    let locks2 = locks.update(i, step.lock);
    lemma_num_shared_update(locks, i, step.lock);
    lemma_num_shared_bounds(locks);
    lemma_num_shared_bounds(locks2);

    // A handle only ends up above `Shared` when it already was the single
    // such handle, or when no handle was: afterwards it is alone above.
    if step.lock.over_shared() {
        assert forall|k: int| 0 <= k < locks.len() && k != i implies !(
        #[trigger] locks[k]).over_shared() by {
            if cur.over_shared() {
                assert(locks[i].over_shared());
            } else {
                assert(st.write is None);
            }
        }
    }
    // When write intent remains recorded, some handle still sits above
    // `Shared` in the new configuration.
    if st2.write is Some {
        if step.lock.over_shared() {
            assert(locks2[i].over_shared());
        } else {
            assert(st.write is Some);
            let k = choose|k: int| 0 <= k < locks.len() && (#[trigger] locks[k]).over_shared();
            assert(locks2[k].over_shared());
        }
        assert(!(forall|k: int| 0 <= k < locks2.len() ==> !(#[trigger] locks2[k]).over_shared()));
    }
    // A zero reader count in the new state means no `Shared` holder remains.
    if st2.read == 0 {
        lemma_num_shared_zero(locks2);
    }
    if step.lock == cur {
        assert(locks2 =~= locks);
    }
    assert forall|k: int|
        0 <= k < locks2.len() && ((#[trigger] locks2[k]) is Pending || locks2[k] is Exclusive)
            implies st2.write == Some(WriteIntent::Exclusive) by {
        if k != i {
            assert(locks[k].over_shared());
        }
    }
    assert forall|k: int|
        0 <= k < locks2.len() && (#[trigger] locks2[k]) is Reserved implies st2.write == Some(
        WriteIntent::Reserved,
    ) by {
        if k != i {
            assert(locks[k].over_shared());
        }
    }
    assert forall|k: int|
        0 <= k < locks2.len() && (#[trigger] locks2[k]) is Exclusive implies st2.read == 0 by {
        if k != i {
            assert(locks[k].over_shared());
            assert(st.read == 0);
        }
    }
}

/// Mutual exclusion, the safety heart of the protocol: under the coordinator
/// invariant at most one handle holds `Exclusive`, and while one does, the
/// shared reader count is zero (so no handle holds `Shared`).
pub proof fn lemma_mutual_exclusion(locks: Seq<LockKind>, st: LockStateModel, i: int, j: int)
    requires
        coordinator_inv(locks, st),
        0 <= i < locks.len(),
        0 <= j < locks.len(),
        locks[i] is Exclusive,
        locks[j] is Exclusive,
    ensures
        i == j,
        st.read == 0,
        forall|k: int| 0 <= k < locks.len() ==> !((#[trigger] locks[k]) is Shared),
{
    lemma_num_shared_zero(locks);
}

/// The coordinator invariant holds of the initial configuration: any number
/// of handles, all `Unlocked`, with a fresh shared state.
pub proof fn lemma_initial_inv(n: nat)
    ensures
        coordinator_inv(
            Seq::new(n, |i: int| LockKind::Unlocked),
            LockStateModel { read: 0, write: Option::<WriteIntent>::None },
        ),
    decreases n,
{
    let locks = Seq::new(n, |i: int| LockKind::Unlocked);
    if n > 0 {
        lemma_initial_inv((n - 1) as nat);
        assert(locks.drop_last() =~= Seq::new((n - 1) as nat, |i: int| LockKind::Unlocked));
    }
}

/// One request in a sequence of requests: handle `handle` asks for `kind`.
pub ghost struct LockRequest {
    pub handle: int,
    pub kind: LockKind,
}

/// The configuration reached from `(locks, st)` after a whole sequence of
/// lock requests, applied in order. A request naming a handle out of range
/// changes nothing.
pub open spec fn apply_requests(
    locks: Seq<LockKind>,
    st: LockStateModel,
    reqs: Seq<LockRequest>,
) -> (Seq<LockKind>, LockStateModel)
    decreases reqs.len(),
{
    if reqs.len() == 0 {
        (locks, st)
    } else {
        let r = reqs[0];
        if 0 <= r.handle < locks.len() {
            let step = lock_request(locks[r.handle], st, r.kind);
            apply_requests(locks.update(r.handle, step.lock), step.state, reqs.drop_first())
        } else {
            apply_requests(locks, st, reqs.drop_first())
        }
    }
}

/// For all sequences of lock requests across any number of handles sharing
/// one state: starting from a configuration satisfying the coordinator
/// invariant (in particular from the initial one of [`lemma_initial_inv`]),
/// the configuration reached still satisfies it — so by
/// [`lemma_mutual_exclusion`], at most one handle holds `Exclusive` at any
/// time, and never while a reader is counted.
pub proof fn lemma_requests_preserve_inv(
    locks: Seq<LockKind>,
    st: LockStateModel,
    reqs: Seq<LockRequest>,
)
    requires
        coordinator_inv(locks, st),
    ensures
        ({
            let (locks2, st2) = apply_requests(locks, st, reqs);
            coordinator_inv(locks2, st2) && locks2.len() == locks.len()
        }),
    decreases reqs.len(),
{
    if reqs.len() > 0 {
        let r = reqs[0];
        if 0 <= r.handle < locks.len() {
            lemma_request_preserves_inv(locks, st, r.handle, r.kind);
            let step = lock_request(locks[r.handle], st, r.kind);
            lemma_requests_preserve_inv(
                locks.update(r.handle, step.lock),
                step.state,
                reqs.drop_first(),
            );
        } else {
            lemma_requests_preserve_inv(locks, st, reqs.drop_first());
        }
    }
}


/// `Exclusive` is never granted while readers are counted: any request that
/// newly leaves a handle holding `Exclusive` with the request granted leaves
/// the reader count at zero.
pub proof fn lemma_exclusive_grant_requires_no_readers(
    cur: LockKind,
    st: LockStateModel,
    to: LockKind,
)
    requires
        cur != LockKind::Exclusive,
    ensures
        ({
            let step = lock_request(cur, st, to);
            (step.granted && step.lock is Exclusive) ==> step.state.read == 0
        }),
{
}

} // verus!
