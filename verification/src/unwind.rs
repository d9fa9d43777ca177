//! Decision logic of the bounded stack walk.
//!
//! The underlying unwind library is driven one step at a time: each step
//! either advances to the next frame, reports the end of the stack with
//! zero, or fails with a negative code; after a successful step the
//! instruction pointer register is read, which can also fail. The walk
//! collects at most `max_frames` frames, innermost first, and an error
//! discards everything collected so far.

use vstd::prelude::*;

verus! {

/// One observation of the underlying walk: the step result, the result of
/// reading the instruction pointer after it, and the pointer read.
#[derive(Debug, Clone, Copy, PartialEq, Eq, Structural)]
pub struct StepRecord {
    pub step: i32,
    pub reg_result: i32,
    pub ip: u64,
}

/// What the walk does after one step: take the frame and continue, finish
/// the walk, or abort with the error code.
#[derive(Debug, Clone, Copy, PartialEq, Eq, Structural)]
pub enum StepDecision {
    Take,
    Finish,
    Fail(i32),
}

/// Decides one iteration of the walk from the step result and the register
/// read that followed it: a negative step or register code aborts with that
/// code, a zero step ends the walk, and anything else takes the frame.
pub fn step_decision(step: i32, reg_result: i32) -> (d: StepDecision)
    ensures
        step < 0 ==> d == StepDecision::Fail(step),
        step == 0 ==> d == StepDecision::Finish,
        step > 0 && reg_result < 0 ==> d == StepDecision::Fail(reg_result),
        step > 0 && reg_result >= 0 ==> d == StepDecision::Take,
{
    if step < 0 {
        StepDecision::Fail(step)
    } else if step == 0 {
        StepDecision::Finish
    } else if reg_result < 0 {
        StepDecision::Fail(reg_result)
    } else {
        StepDecision::Take
    }
}

/// The frames collected by the walk from observation `j` on, having already
/// collected `acc`. The walk stops as soon as the bound is reached or the
/// observations end.
pub open spec fn spec_walk(max: int, steps: Seq<StepRecord>, j: int, acc: Seq<u64>) -> Result<
    Seq<u64>,
    i32,
>
    decreases steps.len() - j,
{
    if acc.len() >= max {
        Ok(acc)
    } else if j < 0 || j >= steps.len() {
        Ok(acc)
    } else if steps[j].step == 0 {
        Ok(acc)
    } else if steps[j].step < 0 {
        Err(steps[j].step)
    } else if steps[j].reg_result < 0 {
        Err(steps[j].reg_result)
    } else {
        spec_walk(max, steps, j + 1, acc.push(steps[j].ip))
    }
}

/// The result of a whole walk: a failed cursor initialization aborts with
/// its code before any step is taken.
pub open spec fn spec_unwind(max: int, init: i32, steps: Seq<StepRecord>) -> Result<Seq<u64>, i32> {
    if init < 0 {
        Err(init as i32)
    } else {
        spec_walk(max, steps, 0, Seq::<u64>::empty())
    }
}

/// A walk bounded at zero frames collects nothing and reports no error.
pub proof fn lemma_zero_bound_walk(init: i32, steps: Seq<StepRecord>)
    requires
        init >= 0,
    ensures
        spec_unwind(0, init, steps) == Ok::<Seq<u64>, i32>(Seq::<u64>::empty()),
{
}

/// An Unwinder over libunwind's local-unwind interface: a cursor is
/// initialized from a machine context, then stepped, reading the
/// instruction pointer register after each step.
///
/// Creation pre-sizes the walk; it is not safe inside the stop window, while
/// driving the prepared walk is. The walk itself goes through the unwind
/// library, so this type holds the walk's decisions and its replay: a caller
/// drives the library with [`step_decision`] and hands the observations
/// over, or replays them here.
pub struct LibunwindUnwinder {
    pub max_frames: usize,
}

impl LibunwindUnwinder {
    /// Prepares a walk that collects at most `max_frames` frames. The
    /// collection begins from the innermost function on the stack, so once
    /// the limit is reached, outer frames are dropped.
    pub fn new(max_frames: usize) -> (r: Self)
        ensures
            r.max_frames == max_frames,
    {
        LibunwindUnwinder { max_frames }
    }

    /// Replays a walk over the observations of the underlying library:
    /// `init` is the cursor initialization result and `steps` the step and
    /// register observations in order. Returns the collected frames,
    /// innermost first, or the first error code observed, discarding any
    /// partially collected frames.
    pub fn unwind_steps(&self, init: i32, steps: &Vec<StepRecord>) -> (r: Result<
        Vec<crate::types::Frame>,
        i32,
    >)
        ensures
            match spec_unwind(self.max_frames as int, init, steps@) {
                Ok(ips) => r matches Ok(v) && v@.map_values(|f: crate::types::Frame| f.ip) == ips,
                Err(e) => r matches Err(e2) && e2 == e,
            },
    {
        if init < 0 {
            return Err(init);
        }
        let mut frames: Vec<crate::types::Frame> = Vec::new();
        let n = steps.len();
        let mut j: usize = 0;
        proof {
            assert(Seq::<u64>::empty() =~= frames@.map_values(|f: crate::types::Frame| f.ip));
        }
        while j < n
            invariant
                init >= 0,
                n == steps@.len(),
                0 <= j <= n,
                frames@.len() <= self.max_frames,
                spec_walk(self.max_frames as int, steps@, 0, Seq::<u64>::empty()) == spec_walk(
                    self.max_frames as int,
                    steps@,
                    j as int,
                    frames@.map_values(|f: crate::types::Frame| f.ip),
                ),
            decreases n - j,
        {
            if frames.len() >= self.max_frames {
                return Ok(frames);
            }
            let s = steps[j];
            match step_decision(s.step, s.reg_result) {
                StepDecision::Finish => {
                    return Ok(frames);
                },
                StepDecision::Fail(e) => {
                    return Err(e);
                },
                StepDecision::Take => {
                    let ghost before = frames@;
                    frames.push(crate::types::Frame { ip: s.ip });
                    proof {
                        assert(frames@.map_values(|f: crate::types::Frame| f.ip) =~= before.map_values(
                            |f: crate::types::Frame| f.ip,
                        ).push(s.ip));
                    }
                    j += 1;
                },
            }
        }
        Ok(frames)
    }
}

impl crate::types::Unwinder<(i32, Vec<StepRecord>)> for LibunwindUnwinder {
    /// Unwinds from a pair of cursor initialization result and step
    /// observations.
    fn unwind(self, context: (i32, Vec<StepRecord>)) -> Result<crate::types::Sample, i32> {
        self.unwind_steps(context.0, &context.1)
    }
}

} // verus!
