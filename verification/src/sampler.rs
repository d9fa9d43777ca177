//! The rendezvous between the sampling thread and one suspended target.
//!
//! The sampling signal is delivered to the target; the target's handler
//! copies its machine context into a shared one-shot slot and posts a
//! semaphore; the sampler reads the context, runs its callback, and releases
//! the target; a final post guarantees the target has fully left the handler
//! before the shared cells are torn down. Signal delivery, the handler, and
//! the semaphores live with the platform; the shared cells and their
//! protocol obligations are here.

use vstd::prelude::*;

verus! {

/// Owner of the process-wide stop-signal disposition for the duration of a
/// profiling run. Installing and restoring the signal handler is platform
/// work performed by its surroundings; at most one Sampler may exist
/// process-wide.
pub struct Sampler {}

impl Sampler {
    pub fn new() -> Sampler {
        Sampler {  }
    }
}

impl Default for Sampler {
    fn default() -> Sampler {
        Sampler::new()
    }
}

/// The process-wide rendezvous cells: three counting semaphores and the
/// one-shot context slot. The signal itself plays the role of the first
/// message; `msg2` signals that the context was deposited, `msg3` releases
/// the target, and `msg4` confirms the target left the handler. Only one
/// rendezvous may be in flight.
pub struct SharedState<S, C> {
    pub msg2: Option<S>,
    pub msg3: Option<S>,
    pub msg4: Option<S>,
    pub context: Option<C>,
}

impl<S, C> SharedState<S, C> {
    /// The state between rendezvous: every cell is empty.
    pub open spec fn is_cleared(&self) -> bool {
        &&& self.msg2 is None
        &&& self.msg3 is None
        &&& self.msg4 is None
        &&& self.context is None
    }

    pub fn empty() -> (r: Self)
        ensures
            r.is_cleared(),
    {
        SharedState { msg2: None, msg3: None, msg4: None, context: None }
    }

    /// Arms the cells for one rendezvous with fresh semaphores; the context
    /// slot starts empty.
    pub fn reset(&mut self, s2: S, s3: S, s4: S)
        ensures
            final(self).msg2 == Some(s2),
            final(self).msg3 == Some(s3),
            final(self).msg4 == Some(s4),
            final(self).context is None,
    {
        self.msg2 = Some(s2);
        self.msg3 = Some(s3);
        self.msg4 = Some(s4);
        self.context = None;
    }

    /// Tears the cells down after a rendezvous: afterwards the shared
    /// context cell is empty, as is every semaphore cell.
    pub fn clear(&mut self)
        ensures
            final(self).is_cleared(),
    {
        self.msg2 = None;
        self.msg3 = None;
        self.msg4 = None;
        self.context = None;
    }

    /// Deposits the target's machine context into the one-shot slot; what
    /// the handler does before posting `msg2`.
    pub fn deposit_context(&mut self, c: C)
        ensures
            final(self).context == Some(c),
            final(self).msg2 == old(self).msg2,
            final(self).msg3 == old(self).msg3,
            final(self).msg4 == old(self).msg4,
    {
        self.context = Some(c);
    }

    /// Takes the deposited context out of the one-shot slot, leaving it
    /// empty.
    pub fn take_context(&mut self) -> (r: Option<C>)
        ensures
            r == old(self).context,
            final(self).context is None,
            final(self).msg2 == old(self).msg2,
            final(self).msg3 == old(self).msg3,
            final(self).msg4 == old(self).msg4,
    {
        self.context.take()
    }
}

/// A bounded container for the frames of one sample.
///
/// The container holds up to `max_frames` frames; the collection begins
/// from the innermost function on the stack, so once the limit is reached,
/// outer frames are dropped. Creation pre-sizes the storage and is not safe
/// inside the stop window; filling it frame by frame is.
pub struct Sample {
    frames: Vec<crate::types::Frame>,
    max_frames: usize,
}

impl Sample {
    /// The frames collected so far.
    pub closed spec fn frames_seq(&self) -> Seq<crate::types::Frame> {
        self.frames@
    }

    /// The bound the container was created with.
    pub closed spec fn max(&self) -> usize {
        self.max_frames
    }

    /// The container never holds more than its bound.
    pub open spec fn wf(&self) -> bool {
        self.frames_seq().len() <= self.max()
    }

    /// Creates an empty container that will hold up to `max_frames` frames.
    pub fn new(max_frames: usize) -> (r: Self)
        ensures
            r.frames_seq() == Seq::<crate::types::Frame>::empty(),
            r.max() == max_frames,
            r.wf(),
    {
        Sample { frames: Vec::with_capacity(max_frames), max_frames }
    }

    /// Whether the bound is reached and no further frame can be taken.
    pub fn is_full(&self) -> (r: bool)
        ensures
            r == (self.frames_seq().len() >= self.max()),
    {
        self.frames.len() >= self.max_frames
    }

    /// Appends one captured instruction pointer.
    pub fn push_frame(&mut self, ip: u64)
        requires
            old(self).wf(),
            old(self).frames_seq().len() < old(self).max(),
        ensures
            final(self).wf(),
            final(self).frames_seq() == old(self).frames_seq().push(
                crate::types::Frame { ip },
            ),
            final(self).max() == old(self).max(),
    {
        self.frames.push(crate::types::Frame { ip });
    }

    /// Consumes the container, returning the collected frames in order.
    pub fn into_frames(self) -> (r: Vec<crate::types::Frame>)
        ensures
            r@ == self.frames_seq(),
    {
        self.frames
    }
}

} // verus!
