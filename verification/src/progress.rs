//! The shared progress counter of one download job.

use vstd::prelude::*;
use vstd::rwlock::{RwLock, RwLockPredicate};

verus! {

/// A progress snapshot: how many fetch workers have finished (`current`) out
/// of the number of matched files of the job (`all`). A snapshot is an
/// independent copy, safe to hand to a callback without synchronization.
#[derive(Clone, Copy, Debug, PartialEq, Eq, Structural)]
pub struct Process {
    pub current: usize,
    pub all: usize,
}

impl Process {
    /// A fresh snapshot for a job with `n` matched files: nothing finished yet.
    pub fn new(n: usize) -> (r: Self)
        ensures
            r.current == 0,
            r.all == n,
    {
        Self { current: 0, all: n }
    }

    /// An independent copy of this snapshot.
    pub fn deep_clone(&self) -> (r: Self)
        ensures
            r == *self,
    {
        Self { current: self.current, all: self.all }
    }

    /// Record one more finished worker. Callers guarantee that no more
    /// completions are recorded than there are matched files.
    pub fn done(&mut self)
        requires
            old(self).current < old(self).all,
        ensures
            *final(self) == after_done(*old(self)),
    {
        self.current = self.current + 1;
    }

    /// Whether every matched file of the job has been accounted for.
    pub fn is_over(&self) -> (r: bool)
        ensures
            r <==> self.current == self.all,
    {
        self.current == self.all
    }
}

/// The state after one more worker completion is recorded.
pub open spec fn after_done(p: Process) -> Process {
    Process { current: (p.current + 1) as usize, all: p.all }
}

/// The state after `k` worker completions are recorded, one at a time.
pub open spec fn after_dones(p: Process, k: nat) -> Process
    decreases k,
{
    if k == 0 {
        p
    } else {
        after_done(after_dones(p, (k - 1) as nat))
    }
}

/// Each recorded completion raises `current` by exactly one and leaves the
/// total alone, as long as the count fits the machine word.
pub proof fn lemma_after_dones_counts(p: Process, k: nat)
    requires
        p.current + k <= usize::MAX,
    ensures
        after_dones(p, k).current == p.current + k,
        after_dones(p, k).all == p.all,
    decreases k,
{
    if k > 0 {
        lemma_after_dones_counts(p, (k - 1) as nat);
    }
}

/// Law: starting from a fresh counter for `n` matched files, recording `n`
/// completions — one per worker, in whatever order the lock serializes them —
/// ends with `current` equal to `n` exactly, never more, never less.
pub proof fn lemma_every_worker_counted(n: usize)
    ensures
        after_dones(Process { current: 0, all: n }, n as nat) == (Process { current: n, all: n }),
{
    lemma_after_dones_counts(Process { current: 0, all: n }, n as nat);
}

/// The lock invariant of a shared progress counter: the total is fixed when
/// the job starts and the completed count never exceeds it.
pub struct ProgressInv {
    pub total: nat,
}

impl RwLockPredicate<Process> for ProgressInv {
    open spec fn inv(self, p: Process) -> bool {
        p.all == self.total && p.current <= p.all
    }
}

/// The progress counter shared by all fetch workers of one job. A verified
/// reader-writer lock makes the increment-and-snapshot step mutually
/// exclusive, so concurrent workers can never tear an update or lose one.
pub struct SharedProgress {
    lock: RwLock<Process, ProgressInv>,
}

impl SharedProgress {
    /// The number of matched files this counter was created for.
    pub closed spec fn total(&self) -> nat {
        self.lock.pred().total
    }

    /// A counter for a job with `n` matched files, starting at zero finished.
    pub fn new(n: usize) -> (r: Self)
        ensures
            r.total() == n,
    {
        SharedProgress {
            lock: RwLock::new(
                Process { current: 0, all: n },
                Ghost(ProgressInv { total: n as nat }),
            ),
        }
    }

    /// Record one successfully finished worker and return an independent
    /// snapshot of the state right after the increment, all under mutual
    /// exclusion. The increment is guarded so that the lock invariant
    /// (`current <= all`) holds even if called more often than there are
    /// matched files, which a correct job never does.
    pub fn finish_one(&self) -> (r: Process)
        ensures
            r.all == self.total(),
            r.current <= r.all,
            self.total() > 0 ==> 0 < r.current,
    {
        let (mut p, handle) = self.lock.acquire_write();
        if p.current < p.all {
            p.done();
        }
        let snap = p.deep_clone();
        handle.release_write(p);
        snap
    }

    /// A read-only snapshot of the current state.
    pub fn snapshot(&self) -> (r: Process)
        ensures
            r.all == self.total(),
            r.current <= r.all,
    {
        let handle = self.lock.acquire_read();
        let r = handle.borrow().deep_clone();
        handle.release_read();
        r
    }
}

} // verus!
