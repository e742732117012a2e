//! The per-job progress bridge.
//!
//! A process-wide registry maps each encoding job to its own channel of
//! elapsed-time samples. The entity parsing the external process's
//! progress stream pushes samples in and a terminating sentinel when the
//! stream ends; the encoder drains them. Channels are independent: an
//! operation on one job never touches another's channel, and a sample for
//! an unregistered job is silently dropped.

use vstd::prelude::*;

verus! {

/// One job's progress channel: pending samples in milliseconds, and
/// whether the terminating sentinel has arrived.
struct ProgressChannel {
    buffer: Vec<i64>,
    closed: bool,
}

/// What the registry records of one channel: its pending samples and
/// whether it is closed.
pub type ChannelState = (Seq<i64>, bool);

spec fn chan_view(c: ProgressChannel) -> ChannelState {
    (c.buffer@, c.closed)
}

spec fn distinct_keys(s: Seq<(u64, ProgressChannel)>) -> bool {
    forall|i: int, j: int| 0 <= i < j < s.len() ==> (#[trigger] s[i]).0 != (#[trigger] s[j]).0
}

spec fn registry_map(s: Seq<(u64, ProgressChannel)>) -> Map<u64, ChannelState>
    decreases s.len(),
{
    if s.len() == 0 {
        Map::empty()
    } else {
        registry_map(s.drop_last()).insert(s.last().0, chan_view(s.last().1))
    }
}

proof fn lemma_registry_contains(s: Seq<(u64, ProgressChannel)>, k: u64)
    ensures
        registry_map(s).contains_key(k) <==> exists|i: int|
            0 <= i < s.len() && (#[trigger] s[i]).0 == k,
    decreases s.len(),
{
    if s.len() > 0 {
        lemma_registry_contains(s.drop_last(), k);
        if registry_map(s).contains_key(k) {
            if s.last().0 == k {
                assert(s[s.len() - 1].0 == k);
            } else {
                let i = choose|i: int| 0 <= i < s.drop_last().len() && (#[trigger] s.drop_last()[i]).0 == k;
                assert(s[i].0 == k);
            }
        } else {
            assert forall|i: int| 0 <= i < s.len() implies (#[trigger] s[i]).0 != k by {
                if i < s.len() - 1 {
                    assert(s.drop_last()[i].0 == s[i].0);
                }
            }
        }
    }
}

proof fn lemma_registry_at(s: Seq<(u64, ProgressChannel)>, i: int)
    requires
        distinct_keys(s),
        0 <= i < s.len(),
    ensures
        registry_map(s).contains_key(s[i].0),
        registry_map(s)[s[i].0] == chan_view(s[i].1),
    decreases s.len(),
{
    if i == s.len() - 1 {
    } else {
        assert(s.drop_last()[i] == s[i]);
        lemma_registry_at(s.drop_last(), i);
        assert(s.last().0 != s[i].0);
    }
}

proof fn lemma_registry_update(s: Seq<(u64, ProgressChannel)>, i: int, c: ProgressChannel)
    requires
        distinct_keys(s),
        0 <= i < s.len(),
    ensures
        registry_map(s.update(i, (s[i].0, c))) =~= registry_map(s).insert(s[i].0, chan_view(c)),
    decreases s.len(),
{
    let s2 = s.update(i, (s[i].0, c));
    if i == s.len() - 1 {
        assert(s2.drop_last() =~= s.drop_last());
    } else {
        assert(s2.drop_last() =~= s.drop_last().update(i, (s[i].0, c)));
        assert(s.drop_last()[i] == s[i]);
        lemma_registry_update(s.drop_last(), i, c);
        assert(s.last().0 != s[i].0);
        assert(s2.last() == s.last());
    }
}

proof fn lemma_registry_remove(s: Seq<(u64, ProgressChannel)>, i: int)
    requires
        distinct_keys(s),
        0 <= i < s.len(),
    ensures
        registry_map(s.remove(i)) =~= registry_map(s).remove(s[i].0),
    decreases s.len(),
{
    let s2 = s.remove(i);
    if i == s.len() - 1 {
        assert(s2 =~= s.drop_last());
        lemma_registry_contains(s.drop_last(), s[i].0);
        assert forall|q: int| 0 <= q < s.drop_last().len() implies (#[trigger] s.drop_last()[q]).0
            != s[i].0 by {
            assert(s.drop_last()[q] == s[q]);
        }
        assert(!registry_map(s.drop_last()).contains_key(s[i].0));
    } else {
        assert(s2.drop_last() =~= s.drop_last().remove(i));
        assert(s.drop_last()[i] == s[i]);
        lemma_registry_remove(s.drop_last(), i);
        assert(s2.last() == s.last());
        assert(s.last().0 != s[i].0);
    }
}

/// What draining a channel yields next.
#[derive(Clone, Copy, Debug, PartialEq, Eq, Structural)]
pub enum PollOutcome {
    /// The next pending elapsed-time sample, in milliseconds.
    Sample(i64),
    /// No samples remain and the sentinel has arrived: the stream is over.
    Finished,
    /// No samples yet, but the stream is still open.
    Pending,
    /// No channel is registered under this job.
    Unregistered,
}

/// Registry of per-job progress channels.
pub struct ProgressBridge {
    entries: Vec<(u64, ProgressChannel)>,
}

impl View for ProgressBridge {
    type V = Map<u64, ChannelState>;

    closed spec fn view(&self) -> Map<u64, ChannelState> {
        registry_map(self.entries@)
    }
}

impl ProgressBridge {
    /// Registered jobs are distinct.
    pub closed spec fn wf(&self) -> bool {
        distinct_keys(self.entries@)
    }

    /// An empty registry.
    pub fn new() -> (b: ProgressBridge)
        ensures
            b.wf(),
            b@ == Map::<u64, ChannelState>::empty(),
    {
        let b = ProgressBridge { entries: Vec::new() };
        proof {
            assert(b@ =~= Map::<u64, ChannelState>::empty());
        }
        b
    }

    fn find_index(&self, job_id: u64) -> (r: Option<usize>)
        requires
            self.wf(),
        ensures
            r matches Some(i) ==> i < self.entries@.len() && self.entries@[i as int].0 == job_id,
            r is None ==> !self@.contains_key(job_id),
    {
        let n = self.entries.len();
        let mut i: usize = 0;
        while i < n
            invariant
                n == self.entries@.len(),
                i <= n,
                forall|q: int| 0 <= q < i ==> (#[trigger] self.entries@[q]).0 != job_id,
            decreases n - i,
        {
            if self.entries[i].0 == job_id {
                return Some(i);
            }
            i += 1;
        }
        proof {
            lemma_registry_contains(self.entries@, job_id);
        }
        None
    }

    /// Open a fresh, empty channel for a job. Returns whether the job was
    /// new; a job registered twice keeps its first channel.
    pub fn register(&mut self, job_id: u64) -> (fresh: bool)
        requires
            old(self).wf(),
        ensures
            final(self).wf(),
            fresh <==> !old(self)@.contains_key(job_id),
            fresh ==> final(self)@ == old(self)@.insert(job_id, (Seq::<i64>::empty(), false)),
            !fresh ==> final(self)@ == old(self)@,
    {
        match self.find_index(job_id) {
            Some(i) => {
                proof {
                    lemma_registry_contains(self.entries@, job_id);
                }
                false
            },
            None => {
                self.entries.push((job_id, ProgressChannel { buffer: Vec::new(), closed: false }));
                proof {
                    let s = old(self).entries@;
                    assert(self.entries@.drop_last() =~= s);
                    lemma_registry_contains(s, job_id);
                    assert forall|i: int, j: int|
                        0 <= i < j < self.entries@.len() implies (#[trigger] self.entries@[i]).0
                        != (#[trigger] self.entries@[j]).0 by {
                        if j < self.entries@.len() - 1 {
                            assert(s[i].0 != s[j].0);
                        } else {
                            assert(self.entries@[i] == s[i]);
                        }
                    }
                }
                true
            },
        }
    }

    /// Forward one elapsed-time sample to a job's channel. A sample for an
    /// unregistered job, or one arriving after the sentinel, is dropped.
    pub fn send(&mut self, job_id: u64, sample_ms: i64) -> (accepted: bool)
        requires
            old(self).wf(),
        ensures
            final(self).wf(),
            accepted <==> old(self)@.contains_key(job_id) && !old(self)@[job_id].1,
            accepted ==> final(self)@ == old(self)@.insert(
                job_id,
                (old(self)@[job_id].0.push(sample_ms), false),
            ),
            !accepted ==> final(self)@ == old(self)@,
    {
        let i = match self.find_index(job_id) {
            None => {
                return false;
            },
            Some(i) => i,
        };
        proof {
            lemma_registry_at(self.entries@, i as int);
        }
        let mut entry = self.entries.remove(i);
        if entry.1.closed {
            self.entries.insert(i, entry);
            proof {
                assert(self.entries@ =~= old(self).entries@);
            }
            return false;
        }
        entry.1.buffer.push(sample_ms);
        self.entries.insert(i, entry);
        proof {
            let s = old(self).entries@;
            assert(entry.0 == s[i as int].0);
            assert(self.entries@ =~= s.update(i as int, (s[i as int].0, entry.1)));
            lemma_registry_update(s, i as int, entry.1);
            assert forall|p: int, q: int|
                0 <= p < q < self.entries@.len() implies (#[trigger] self.entries@[p]).0
                != (#[trigger] self.entries@[q]).0 by {
                assert(self.entries@[p].0 == s[p].0 && self.entries@[q].0 == s[q].0);
            }
        }
        true
    }

    /// Deliver the terminating sentinel: the channel stops accepting
    /// samples and, once drained, reports the stream as finished.
    pub fn finish(&mut self, job_id: u64) -> (accepted: bool)
        requires
            old(self).wf(),
        ensures
            final(self).wf(),
            accepted <==> old(self)@.contains_key(job_id) && !old(self)@[job_id].1,
            accepted ==> final(self)@ == old(self)@.insert(
                job_id,
                (old(self)@[job_id].0, true),
            ),
            !accepted ==> final(self)@ == old(self)@,
    {
        let i = match self.find_index(job_id) {
            None => {
                return false;
            },
            Some(i) => i,
        };
        proof {
            lemma_registry_at(self.entries@, i as int);
        }
        let mut entry = self.entries.remove(i);
        if entry.1.closed {
            self.entries.insert(i, entry);
            proof {
                assert(self.entries@ =~= old(self).entries@);
            }
            return false;
        }
        entry.1.closed = true;
        self.entries.insert(i, entry);
        proof {
            let s = old(self).entries@;
            assert(entry.0 == s[i as int].0);
            assert(self.entries@ =~= s.update(i as int, (s[i as int].0, entry.1)));
            lemma_registry_update(s, i as int, entry.1);
            assert forall|p: int, q: int|
                0 <= p < q < self.entries@.len() implies (#[trigger] self.entries@[p]).0
                != (#[trigger] self.entries@[q]).0 by {
                assert(self.entries@[p].0 == s[p].0 && self.entries@[q].0 == s[q].0);
            }
        }
        true
    }

    /// Take the next sample of a job's channel, or report why none is
    /// available.
    pub fn poll(&mut self, job_id: u64) -> (o: PollOutcome)
        requires
            old(self).wf(),
        ensures
            final(self).wf(),
            !old(self)@.contains_key(job_id) ==> o == PollOutcome::Unregistered && final(self)@
                == old(self)@,
            old(self)@.contains_key(job_id) && old(self)@[job_id].0.len() > 0 ==> o
                == PollOutcome::Sample(old(self)@[job_id].0[0]) && final(self)@ == old(
                self,
            )@.insert(job_id, (old(self)@[job_id].0.skip(1), old(self)@[job_id].1)),
            old(self)@.contains_key(job_id) && old(self)@[job_id].0.len() == 0 ==> final(self)@
                == old(self)@ && o == (if old(self)@[job_id].1 {
                PollOutcome::Finished
            } else {
                PollOutcome::Pending
            }),
    {
        let i = match self.find_index(job_id) {
            None => {
                return PollOutcome::Unregistered;
            },
            Some(i) => i,
        };
        proof {
            lemma_registry_at(self.entries@, i as int);
        }
        let mut entry = self.entries.remove(i);
        if entry.1.buffer.len() == 0 {
            let closed = entry.1.closed;
            self.entries.insert(i, entry);
            proof {
                assert(self.entries@ =~= old(self).entries@);
            }
            if closed {
                return PollOutcome::Finished;
            } else {
                return PollOutcome::Pending;
            }
        }
        let sample = entry.1.buffer.remove(0);
        self.entries.insert(i, entry);
        proof {
            let s = old(self).entries@;
            assert(entry.1.buffer@ =~= old(self)@[job_id].0.skip(1));
            assert(entry.0 == s[i as int].0);
            assert(self.entries@ =~= s.update(i as int, (s[i as int].0, entry.1)));
            lemma_registry_update(s, i as int, entry.1);
            assert forall|p: int, q: int|
                0 <= p < q < self.entries@.len() implies (#[trigger] self.entries@[p]).0
                != (#[trigger] self.entries@[q]).0 by {
                assert(self.entries@[p].0 == s[p].0 && self.entries@[q].0 == s[q].0);
            }
        }
        PollOutcome::Sample(sample)
    }

    /// Drop a job's channel after its encode phase ends, so the registry
    /// does not grow without bound.
    pub fn deregister(&mut self, job_id: u64) -> (removed: bool)
        requires
            old(self).wf(),
        ensures
            final(self).wf(),
            removed <==> old(self)@.contains_key(job_id),
            final(self)@ == old(self)@.remove(job_id),
    {
        let i = match self.find_index(job_id) {
            None => {
                proof {
                    assert(old(self)@.remove(job_id) =~= old(self)@);
                }
                return false;
            },
            Some(i) => i,
        };
        proof {
            lemma_registry_at(self.entries@, i as int);
            lemma_registry_remove(self.entries@, i as int);
        }
        self.entries.remove(i);
        proof {
            let s = old(self).entries@;
            assert forall|p: int, q: int|
                0 <= p < q < self.entries@.len() implies (#[trigger] self.entries@[p]).0
                != (#[trigger] self.entries@[q]).0 by {
                let op = if p < i { p } else { p + 1 };
                let oq = if q < i { q } else { q + 1 };
                assert(self.entries@[p] == s[op] && self.entries@[q] == s[oq]);
            }
        }
        true
    }
}

/// Registering a job and sending it `s1`, `s2` and the sentinel leaves a
/// channel whose receiver drains exactly `s1` then `s2` and then sees the
/// stream finished — and every other job's channel exactly as it was.
pub proof fn lemma_progress_channel_isolated(
    m0: Map<u64, ChannelState>,
    job: u64,
    s1: i64,
    s2: i64,
)
    requires
        !m0.contains_key(job),
    ensures
        ({
            let m1 = m0.insert(job, (Seq::<i64>::empty(), false));
            let m2 = m1.insert(job, (m1[job].0.push(s1), false));
            let m3 = m2.insert(job, (m2[job].0.push(s2), false));
            let m4 = m3.insert(job, (m3[job].0, true));
            &&& m4[job].0 =~= seq![s1, s2]
            &&& m4[job].1
            &&& m4[job].0[0] == s1
            &&& m4[job].0.skip(1)[0] == s2
            &&& m4[job].0.skip(1).skip(1).len() == 0
            &&& forall|k: u64|
                k != job ==> ((#[trigger] m4.contains_key(k)) <==> m0.contains_key(k))
            &&& forall|k: u64| k != job && m0.contains_key(k) ==> (#[trigger] m4[k]) == m0[k]
        }),
{
    let m1 = m0.insert(job, (Seq::<i64>::empty(), false));
    let m2 = m1.insert(job, (m1[job].0.push(s1), false));
    let m3 = m2.insert(job, (m2[job].0.push(s2), false));
    let m4 = m3.insert(job, (m3[job].0, true));
    assert(m4[job].0 =~= seq![s1, s2]);
    assert(m4[job].0.skip(1) =~= seq![s2]);
    assert(m4[job].0.skip(1).skip(1) =~= Seq::<i64>::empty());
}

} // verus!
