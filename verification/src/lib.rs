//! Core of a wall-clock sampling profiler: canonical data model for captured
//! stacks, an address-to-module cache keyed by build-IDs, decision logic for
//! the signal-based rendezvous and the stack walk, and an output
//! canonicalizer that deduplicates modules and frames into an indexed
//! profile.

pub mod build_id;
pub mod module_cache;
pub mod output;
pub mod sampler;
pub mod semaphore;
pub mod speedscope;
pub mod threads;
pub mod types;
pub mod unwind;

use vstd::prelude::*;

verus! {

/// A kernel task id (Linux) addressing one thread of the current process.
pub type ThreadId = i32;

/// The samples of one thread at the specification level: each sample a
/// sequence of captured frames.
pub type ThreadSamples = (ThreadId, Seq<Seq<types::Frame>>);

/// The index of the first entry for thread `t`, at or after `i`.
pub open spec fn first_thread_from(s: Seq<ThreadSamples>, t: ThreadId, i: int) -> Option<int>
    decreases s.len() - i,
{
    if i < 0 || i >= s.len() {
        None
    } else if s[i].0 == t {
        Some(i)
    } else {
        first_thread_from(s, t, i + 1)
    }
}

/// The index of the first entry for thread `t`.
pub open spec fn first_thread(s: Seq<ThreadSamples>, t: ThreadId) -> Option<int> {
    first_thread_from(s, t, 0)
}

/// The accumulated threads after recording one sample for `t`: the sample is
/// appended to `t`'s entry, or a fresh entry holding only it is added.
pub open spec fn recorded(s: Seq<ThreadSamples>, t: ThreadId, sample: Seq<types::Frame>) -> Seq<
    ThreadSamples,
> {
    match first_thread(s, t) {
        Some(i) => s.update(i, (t, s[i].1.push(sample))),
        None => s.push((t, seq![sample])),
    }
}

/// Whether some entry belongs to thread `t`.
pub open spec fn thread_present(s: Seq<ThreadSamples>, t: ThreadId) -> bool {
    exists|i: int| 0 <= i < s.len() && (#[trigger] s[i]).0 == t
}

proof fn lemma_first_thread_from_ensures(s: Seq<ThreadSamples>, t: ThreadId, i: int)
    requires
        0 <= i,
    ensures
        match first_thread_from(s, t, i) {
            Some(k) => i <= k < s.len() && s[k].0 == t && (forall|j: int|
                i <= j < k ==> (#[trigger] s[j]).0 != t),
            None => forall|j: int| i <= j < s.len() ==> (#[trigger] s[j]).0 != t,
        },
    decreases s.len() - i,
{
    if i < s.len() && s[i].0 != t {
        lemma_first_thread_from_ensures(s, t, i + 1);
    }
}

/// Recording a sample for a thread makes no other thread appear: a thread
/// stands in the accumulated state exactly if it was there before or is the
/// one sampled.
pub proof fn lemma_only_sampled_threads_appear(
    s: Seq<ThreadSamples>,
    t: ThreadId,
    sample: Seq<types::Frame>,
)
    ensures
        forall|u: ThreadId|
            #[trigger] thread_present(recorded(s, t, sample), u) <==> (thread_present(s, u) || u
                == t),
{
    lemma_first_thread_from_ensures(s, t, 0);
    let r = recorded(s, t, sample);
    assert forall|u: ThreadId| #[trigger] thread_present(r, u) implies (thread_present(s, u) || u
        == t) by {
        let i = choose|i: int| 0 <= i < r.len() && (#[trigger] r[i]).0 == u;
        if i < s.len() {
            assert(s[i].0 == u || u == t);
        }
    }
    assert forall|u: ThreadId| thread_present(s, u) || u == t implies #[trigger] thread_present(
        r,
        u,
    ) by {
        if thread_present(s, u) {
            let i = choose|i: int| 0 <= i < s.len() && (#[trigger] s[i]).0 == u;
            assert(r[i].0 == u);
        } else {
            match first_thread(s, t) {
                Some(k) => {
                    assert(r[k].0 == t);
                },
                None => {
                    assert(r[s.len() as int].0 == t);
                },
            }
        }
    }
}

/// The profiler: owns the one Sampler of the process for its lifetime.
pub struct Profiler {
    sampler: sampler::Sampler,
}

impl Profiler {
    pub fn new() -> Profiler {
        Profiler { sampler: sampler::Sampler::new() }
    }

    /// Opens a session that accumulates samples per thread.
    pub fn session(&self) -> (s: Session)
        ensures
            s.threads() == Seq::<ThreadSamples>::empty(),
            s.wf(),
    {
        Session { threads: Vec::new() }
    }
}

/// The scope over which samples accumulate before finalization. A session
/// is open until it is consumed by [`Session::finish`]; a finished session
/// cannot be reopened.
pub struct Session {
    threads: Vec<(ThreadId, Vec<Vec<types::Frame>>)>,
}

impl Session {
    /// The accumulated samples, per thread in order of first sampling.
    pub closed spec fn threads(&self) -> Seq<ThreadSamples> {
        self.threads@.map_values(
            |p: (ThreadId, Vec<Vec<types::Frame>>)|
                (p.0, p.1@.map_values(|v: Vec<types::Frame>| v@)),
        )
    }

    /// Each thread has at most one entry.
    pub open spec fn wf(&self) -> bool {
        forall|i: int, j: int|
            0 <= i < j < self.threads().len() ==> (#[trigger] self.threads()[i]).0 != (
            #[trigger] self.threads()[j]).0
    }

    /// Records one captured sample for one thread. The capture itself — the
    /// rendezvous and the stack walk — happens with the platform; what it
    /// collected is appended here.
    pub fn sample_thread(&mut self, thread: ThreadId, sample: Vec<types::Frame>)
        requires
            old(self).wf(),
        ensures
            final(self).wf(),
            final(self).threads() == recorded(old(self).threads(), thread, sample@),
    {
        let ghost s = self.threads();
        let n = self.threads.len();
        let mut i: usize = 0;
        while i < n
            invariant
                n == self.threads@.len(),
                0 <= i <= n,
                s == self.threads(),
                s == old(self).threads(),
                self.wf(),
                forall|j: int| 0 <= j < i ==> (#[trigger] s[j]).0 != thread,
            decreases n - i,
        {
            if self.threads[i].0 == thread {
                proof {
                    lemma_first_thread_from_ensures(s, thread, 0);
                    let m = first_thread(s, thread);
                    if m is Some {
                        let k = m->Some_0;
                        if k < i {
                            assert(s[k].0 != thread);
                        }
                        if k > i {
                            assert(s[i as int].0 != thread);
                        }
                        assert(k == i as int);
                    } else {
                        assert(s[i as int].0 != thread);
                    }
                }
                let entry = &mut self.threads[i];
                entry.1.push(sample);
                proof {
                    assert(self.threads() =~~= recorded(s, thread, sample@));
                }
                return ;
            }
            i += 1;
        }
        proof {
            lemma_first_thread_from_ensures(s, thread, 0);
            if first_thread(s, thread) is Some {
                let k = first_thread(s, thread)->Some_0;
                assert(s[k].0 != thread);
            }
        }
        self.threads.push((thread, vec![sample]));
        proof {
            assert(self.threads() =~~= recorded(s, thread, sample@));
        }
    }

    /// Consumes the session and returns the accumulated in-memory profile,
    /// still in raw instruction-pointer form.
    pub fn finish(self) -> (p: Profile)
        ensures
            p.threads_seq() == self.threads(),
    {
        Profile { threads: self.threads }
    }
}

/// In-memory profile: the raw samples of every sampled thread. Use the
/// Outputter to obtain a serializable form with build-IDs resolved.
pub struct Profile {
    pub threads: Vec<(ThreadId, Vec<Vec<types::Frame>>)>,
}

impl Profile {
    /// The samples, per thread in order of first sampling.
    pub open spec fn threads_seq(&self) -> Seq<ThreadSamples> {
        self.threads@.map_values(
            |p: (ThreadId, Vec<Vec<types::Frame>>)|
                (p.0, p.1@.map_values(|v: Vec<types::Frame>| v@)),
        )
    }
}

} // verus!
