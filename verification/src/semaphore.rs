//! Decision logic of the signal-safe semaphore's interruptible wait.
//!
//! The underlying POSIX wait can be interrupted by a signal, in which case
//! it reports failure with the interruption code. The interruptible wait
//! retries on exactly that code, so interruption is never surfaced to the
//! caller: the wait returns only success, or the first other error.

use vstd::prelude::*;

verus! {

/// The code with which an interrupted wait fails.
pub const EINTR: i32 = 4;

/// What the interruptible wait does after observing one underlying wait:
/// retry it, report success, or report the error.
#[derive(Debug, Clone, Copy, PartialEq, Eq, Structural)]
pub enum WaitDecision {
    Retry,
    Succeed,
    Fail(i32),
}

/// Decides one iteration of the interruptible wait from the underlying
/// wait's return value and, when it failed, its error code.
pub fn wait_step(ret: i32, errno: i32) -> (d: WaitDecision)
    ensures
        ret == 0 ==> d == WaitDecision::Succeed,
        ret != 0 && errno == EINTR ==> d == WaitDecision::Retry,
        ret != 0 && errno != EINTR ==> d == WaitDecision::Fail(errno),
{
    if ret == 0 {
        WaitDecision::Succeed
    } else if errno == EINTR {
        WaitDecision::Retry
    } else {
        WaitDecision::Fail(errno)
    }
}

/// The outcome of the interruptible wait over a sequence of observed
/// underlying waits, each a `(return value, error code)` pair. `None` means
/// every observation was an interruption and the wait is still running.
pub open spec fn spec_wait_result(obs: Seq<(i32, i32)>) -> Option<Result<(), i32>>
    decreases obs.len(),
{
    if obs.len() == 0 {
        None
    } else if obs[0].0 == 0 {
        Some(Ok(()))
    } else if obs[0].1 == EINTR {
        spec_wait_result(obs.drop_first())
    } else {
        Some(Err(obs[0].1))
    }
}

/// Replays the interruptible wait over a sequence of observed underlying
/// waits.
pub fn wait_through_intr_result(obs: &Vec<(i32, i32)>) -> (r: Option<Result<(), i32>>)
    ensures
        r == spec_wait_result(obs@),
{
    let n = obs.len();
    let mut i: usize = 0;
    proof {
        assert(obs@.skip(0) =~= obs@);
    }
    while i < n
        invariant
            n == obs@.len(),
            0 <= i <= n,
            spec_wait_result(obs@.skip(i as int)) == spec_wait_result(obs@),
        decreases n - i,
    {
        let (ret, errno) = obs[i];
        proof {
            assert(obs@.skip(i as int)[0] == obs@[i as int]);
            assert(obs@.skip(i as int).drop_first() =~= obs@.skip(i as int + 1));
        }
        match wait_step(ret, errno) {
            WaitDecision::Succeed => {
                return Some(Ok(()));
            },
            WaitDecision::Fail(e) => {
                return Some(Err(e));
            },
            WaitDecision::Retry => {
                i += 1;
            },
        }
    }
    proof {
        assert(obs@.skip(n as int).len() == 0);
    }
    None
}

/// The interruptible wait returns success exactly when some underlying wait
/// returns zero with only interruptions before it, and the error it reports
/// is never the interruption code itself.
pub proof fn lemma_wait_through_intr(obs: Seq<(i32, i32)>)
    ensures
        (spec_wait_result(obs) == Some(Result::<(), i32>::Ok(()))) <==> (exists|i: int|
            0 <= i < obs.len() && (#[trigger] obs[i]).0 == 0 && (forall|j: int|
                0 <= j < i ==> (#[trigger] obs[j]).0 != 0 && obs[j].1 == EINTR)),
        forall|e: i32| spec_wait_result(obs) == Some(Result::<(), i32>::Err(e)) ==> e != EINTR,
    decreases obs.len(),
{
    if obs.len() == 0 {
    } else if obs[0].0 == 0 {
        assert(0 <= 0 < obs.len() && obs[0].0 == 0 && (forall|j: int|
            0 <= j < 0 ==> obs[j].0 != 0 && obs[j].1 == EINTR));
    } else if obs[0].1 == EINTR {
        let tail = obs.drop_first();
        lemma_wait_through_intr(tail);
        if spec_wait_result(obs) == Some(Result::<(), i32>::Ok(())) {
            let i = choose|i: int|
                0 <= i < tail.len() && (#[trigger] tail[i]).0 == 0 && (forall|j: int|
                    0 <= j < i ==> (#[trigger] tail[j]).0 != 0 && tail[j].1 == EINTR);
            assert(obs[i + 1].0 == 0);
            assert(forall|j: int| 0 <= j < i + 1 ==> (#[trigger] obs[j]).0 != 0 && obs[j].1 == EINTR)
                by {
                assert(forall|j: int| 1 <= j < i + 1 ==> obs[j] == tail[j - 1]);
            }
        }
        if exists|i: int|
            0 <= i < obs.len() && (#[trigger] obs[i]).0 == 0 && (forall|j: int|
                0 <= j < i ==> (#[trigger] obs[j]).0 != 0 && obs[j].1 == EINTR) {
            let i = choose|i: int|
                0 <= i < obs.len() && (#[trigger] obs[i]).0 == 0 && (forall|j: int|
                    0 <= j < i ==> (#[trigger] obs[j]).0 != 0 && obs[j].1 == EINTR);
            assert(i != 0);
            assert(tail[i - 1].0 == 0);
            assert(forall|j: int| 0 <= j < i - 1 ==> (#[trigger] tail[j]).0 != 0 && tail[j].1 == EINTR)
                by {
                assert(forall|j: int| 0 <= j < i - 1 ==> tail[j] == obs[j + 1]);
            }
            assert(spec_wait_result(tail) == Some(Result::<(), i32>::Ok(())));
        }
    } else {
    }
}

} // verus!
