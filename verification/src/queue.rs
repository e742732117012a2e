//! The bounded-admission job queue.
//!
//! One queue instance serializes all heavy pipeline work: jobs enter in
//! FIFO order, the first `capacity` entries hold the processing slots, and
//! every later entry is a waiter. When a job finishes — admitted or not —
//! it advances the queue, which removes its entry and notifies the waiters
//! of their new positions, `Ready` for the entry that just gained a slot.

use vstd::prelude::*;

use crate::error::PipelineError;

verus! {

/// A notification delivered to a waiting job.
#[derive(Clone, Copy, Debug, PartialEq, Eq, Structural)]
pub enum JobQueueReport {
    /// The job now holds a processing slot.
    Ready,
    /// The job is still waiting, at this position in the queue.
    InQueue(usize),
}

/// A report addressed to one queued job.
#[derive(Clone, Copy, Debug, PartialEq, Eq, Structural)]
pub struct QueueNotice {
    pub job_id: u64,
    pub report: JobQueueReport,
}

/// FIFO admission gate over at most `capacity` concurrently-running jobs.
pub struct JobQueue {
    entries: Vec<u64>,
    capacity: usize,
}

impl View for JobQueue {
    type V = Seq<u64>;

    closed spec fn view(&self) -> Seq<u64> {
        self.entries@
    }
}

impl JobQueue {
    /// Number of processing slots.
    pub closed spec fn cap(&self) -> int {
        self.capacity as int
    }

    /// Queue ids are distinct and at least one slot exists.
    pub closed spec fn wf(&self) -> bool {
        &&& self.capacity >= 1
        &&& self@.no_duplicates()
    }

    /// A fresh queue with the given number of slots.
    pub fn new(capacity: usize) -> (q: JobQueue)
        requires
            capacity >= 1,
        ensures
            q.wf(),
            q@ == Seq::<u64>::empty(),
            q.cap() == capacity,
    {
        let q = JobQueue { entries: Vec::new(), capacity };
        proof {
            assert(q@ =~= Seq::<u64>::empty());
        }
        q
    }

    /// Number of slots, as a value.
    pub fn capacity(&self) -> (c: usize)
        ensures
            c == self.cap(),
    {
        self.capacity
    }

    /// Number of queued jobs (admitted and waiting).
    pub fn len(&self) -> (n: usize)
        ensures
            n == self@.len(),
    {
        self.entries.len()
    }

    /// Append a job to the queue. Returns whether the job is admitted
    /// immediately: it is exactly when the queue still had a free slot.
    pub fn enqueue(&mut self, job_id: u64) -> (ready: bool)
        requires
            old(self).wf(),
            !old(self)@.contains(job_id),
        ensures
            final(self).wf(),
            final(self)@ == old(self)@.push(job_id),
            final(self).cap() == old(self).cap(),
            ready <==> old(self)@.len() < old(self).cap(),
    {
        self.entries.push(job_id);
        proof {
            assert forall|i: int, j: int| 0 <= i < j < self@.len() implies self@[i] != self@[j] by {
                if j < self@.len() - 1 {
                    assert(old(self)@[i] != old(self)@[j]);
                } else {
                    assert(old(self)@.contains(old(self)@[i]));
                }
            }
        }
        self.entries.len() <= self.capacity
    }

    /// The position of a job in the queue, if it is queued; the index
    /// returned is the unique one holding the job.
    pub fn position_of(&self, job_id: u64) -> (pos: Option<usize>)
        requires
            self.wf(),
        ensures
            pos matches Some(i) ==> i < self@.len() && self@[i as int] == job_id,
            pos is None ==> !self@.contains(job_id),
    {
        let n = self.entries.len();
        let mut i: usize = 0;
        while i < n
            invariant
                n == self@.len(),
                i <= n,
                forall|j: int| 0 <= j < i ==> self@[j] != job_id,
            decreases n - i,
        {
            if self.entries[i] == job_id {
                return Some(i);
            }
            i += 1;
        }
        None
    }

    /// Remove a finished job and notify from the freed slot onward: when
    /// the removed entry held a processing slot, the waiter newly
    /// entering the capacity window is told `Ready` and every later entry
    /// its new position; when the removed entry was itself still a
    /// waiter, no slot was freed, so no `Ready` is sent — only the
    /// waiters behind it learn their new positions. Entries ahead of the
    /// removed one keep their positions and receive nothing. A job that
    /// is not queued is a programming error, reported as a
    /// queue-invariant failure with the queue unchanged.
    pub fn advance(&mut self, job_id: u64) -> (r: Result<Vec<QueueNotice>, PipelineError>)
        requires
            old(self).wf(),
        ensures
            final(self).wf(),
            final(self).cap() == old(self).cap(),
            r is Ok <==> old(self)@.contains(job_id),
            r is Err ==> *final(self) == *old(self) && (r matches Err(e) && e is QueueInvariant),
            r matches Ok(notices) ==> {
                let idx = old(self)@.index_of(job_id);
                let start = if idx < old(self).cap() {
                    old(self).cap() - 1
                } else {
                    idx
                };
                &&& final(self)@ == old(self)@.remove(idx)
                &&& notices@.len() == if final(self)@.len() > start {
                    final(self)@.len() - start
                } else {
                    0int
                }
                &&& forall|k: int|
                    0 <= k < notices@.len() ==> (#[trigger] notices@[k]).job_id == final(self)@[
                        start + k]
                &&& forall|k: int|
                    0 <= k < notices@.len() ==> (#[trigger] notices@[k]).report == (if start + k
                        == old(self).cap() - 1 {
                        JobQueueReport::Ready
                    } else {
                        JobQueueReport::InQueue((start + k) as usize)
                    })
                &&& idx >= old(self).cap() ==> forall|k: int|
                    0 <= k < notices@.len() ==> !((#[trigger] notices@[k]).report is Ready)
            },
    {
        let pos = self.position_of(job_id);
        let idx = match pos {
            None => {
                return Err(
                    PipelineError::QueueInvariant("job to advance is not queued".to_owned()),
                );
            },
            Some(idx) => idx,
        };
        proof {
            let chosen = old(self)@.index_of(job_id);
            assert(old(self)@.contains(job_id));
            assert(old(self)@[chosen] == job_id);
            assert(chosen == idx as int);
            old(self)@.remove_ensures(idx as int);
        }
        self.entries.remove(idx);
        proof {
            assert forall|i: int, j: int| 0 <= i < j < self@.len() implies self@[i] != self@[j] by {
                let oi = if i < idx { i } else { i + 1 };
                let oj = if j < idx { j } else { j + 1 };
                assert(old(self)@[oi] != old(self)@[oj]);
            }
        }
        let start: usize = if idx < self.capacity {
            self.capacity - 1
        } else {
            idx
        };
        let mut notices: Vec<QueueNotice> = Vec::new();
        let mut i: usize = start;
        while i < self.entries.len()
            invariant
                self.wf(),
                start >= self.capacity - 1,
                i >= start,
                i <= self@.len() || i == start,
                notices@.len() == i - start,
                forall|k: int|
                    0 <= k < notices@.len() ==> (#[trigger] notices@[k]).job_id == self@[start
                        + k],
                forall|k: int|
                    0 <= k < notices@.len() ==> (#[trigger] notices@[k]).report == (if start + k
                        == self.capacity - 1 {
                        JobQueueReport::Ready
                    } else {
                        JobQueueReport::InQueue((start + k) as usize)
                    }),
            decreases self@.len() - i,
        {
            let report = if i == self.capacity - 1 {
                JobQueueReport::Ready
            } else {
                JobQueueReport::InQueue(i)
            };
            notices.push(QueueNotice { job_id: self.entries[i], report });
            i += 1;
        }
        Ok(notices)
    }
}

/// Removing one job from a distinct queue moves every other job to an
/// exactly-known position: one closer to the front if it was behind the
/// removed job, unchanged otherwise. Positions therefore never increase,
/// and a job reaches the front only after every job ahead of it has been
/// removed.
pub proof fn lemma_advance_repositions(s: Seq<u64>, id: u64, other: u64)
    requires
        s.no_duplicates(),
        s.contains(id),
        s.contains(other),
        other != id,
    ensures
        s.remove(s.index_of(id)).contains(other),
        s.remove(s.index_of(id)).index_of(other) == if s.index_of(id) < s.index_of(other) {
            s.index_of(other) - 1
        } else {
            s.index_of(other)
        },
{
    let i = s.index_of(id);
    let j = s.index_of(other);
    assert(s[i] == id);
    assert(s[j] == other);
    let s2 = s.remove(i);
    s.remove_ensures(i);
    let j2 = if i < j {
        j - 1
    } else {
        j
    };
    assert(s2[j2] == other);
    assert(s2.contains(other));
    let k = s2.index_of(other);
    assert(s2[k] == other);
    let ok = if k < i {
        k
    } else {
        k + 1
    };
    assert(s[ok] == other);
    if ok != j {
        assert(false);
    }
}

/// Under the single-slot policy the running job is the front entry, so a
/// completed job's advance removes the front. After `j` such advances the
/// waiter that entered `k`-th stands at position `k - j`: its positions
/// only ever shrink, and it gains the slot — position 0, the `Ready`
/// notification — exactly when all `k` jobs enqueued before it have
/// advanced.
pub proof fn lemma_fifo_admission_order(s: Seq<u64>, j: int, k: int)
    requires
        s.no_duplicates(),
        0 <= j <= k < s.len(),
    ensures
        s.skip(j).contains(s[k]),
        s.skip(j).index_of(s[k]) == k - j,
{
    let s2 = s.skip(j);
    assert(s2[k - j] == s[k]);
    assert(s2.contains(s[k]));
    let i = s2.index_of(s[k]);
    assert(s2[i] == s[k]);
    assert(s[i + j] == s[k]);
    if i + j != k {
        assert(false);
    }
}

/// With a single processing slot, the admitted job is always the front
/// entry, and it changes only when it itself advances: enqueuing a new job
/// or advancing a job other than the front leaves the front in place.
pub proof fn lemma_single_slot_admission(s: Seq<u64>, id: u64)
    requires
        s.no_duplicates(),
        s.len() > 0,
    ensures
        s.push(id)[0] == s[0],
        s.contains(id) && id != s[0] ==> {
            let s2 = s.remove(s.index_of(id));
            s2.len() > 0 && s2[0] == s[0]
        },
{
    if s.contains(id) && id != s[0] {
        let i = s.index_of(id);
        assert(s[i] == id);
        s.remove_ensures(i);
        assert(i != 0);
        assert(s.remove(i)[0] == s[0]);
    }
}

} // verus!
