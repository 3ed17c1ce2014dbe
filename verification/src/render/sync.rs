//! The ring of frames in flight.
use vstd::prelude::*;

verus! {

/// How many frames may be in flight at once.
pub const MAX_FRAMES_IN_FLIGHT: usize = 2;

/// The handles that order each frame in flight, and the frame in turn.
#[derive(Clone, Debug)]
pub struct FrameSync {
    pub image_available: [u64; MAX_FRAMES_IN_FLIGHT],
    pub render_finished: [u64; MAX_FRAMES_IN_FLIGHT],
    pub in_flight: [u64; MAX_FRAMES_IN_FLIGHT],
    pub current_frame: usize,
}

/// The frame after `frame` in the ring.
pub open spec fn next_frame(frame: int) -> int {
    (frame + 1) % (MAX_FRAMES_IN_FLIGHT as int)
}

/// The frame in turn `steps` turns after `frame`.
pub open spec fn frame_after(frame: int, steps: nat) -> int
    decreases steps,
{
    if steps == 0 {
        frame
    } else {
        next_frame(frame_after(frame, (steps - 1) as nat))
    }
}

impl FrameSync {
    /// The frame in turn is one of the ring.
    pub open spec fn wf(&self) -> bool {
        self.current_frame < MAX_FRAMES_IN_FLIGHT
    }

    /// A ring of the given handles, with the first frame in turn.
    pub fn new(
        image_available: [u64; MAX_FRAMES_IN_FLIGHT],
        render_finished: [u64; MAX_FRAMES_IN_FLIGHT],
        in_flight: [u64; MAX_FRAMES_IN_FLIGHT],
    ) -> (r: FrameSync)
        ensures
            r.wf(),
            r == (FrameSync { image_available, render_finished, in_flight, current_frame: 0 }),
    {
        FrameSync { image_available, render_finished, in_flight, current_frame: 0 }
    }

    /// The handles of the frame in turn: image available, render finished,
    /// fence.
    pub fn current(&self) -> (r: (u64, u64, u64))
        requires
            self.wf(),
        ensures
            r.0 == self.image_available@[self.current_frame as int],
            r.1 == self.render_finished@[self.current_frame as int],
            r.2 == self.in_flight@[self.current_frame as int],
    {
        (
            self.image_available[self.current_frame],
            self.render_finished[self.current_frame],
            self.in_flight[self.current_frame],
        )
    }

    /// Hand the turn to the next frame.
    pub fn advance(&mut self)
        requires
            old(self).wf(),
        ensures
            final(self).wf(),
            *final(self) == (FrameSync {
                current_frame: next_frame(old(self).current_frame as int) as usize,
                ..*old(self)
            }),
    {
        self.current_frame = (self.current_frame + 1) % MAX_FRAMES_IN_FLIGHT;
    }
}

/// The ring comes round: after as many turns as there are frames the same
/// frame is in turn, and no frame is in turn twice before that.
pub proof fn ring_comes_round(frame: int, a: nat, b: nat)
    requires
        0 <= frame < MAX_FRAMES_IN_FLIGHT,
        a < b <= MAX_FRAMES_IN_FLIGHT,
    ensures
        frame_after(frame, MAX_FRAMES_IN_FLIGHT as nat) == frame,
        b < MAX_FRAMES_IN_FLIGHT ==> frame_after(frame, a) != frame_after(frame, b),
        0 <= frame_after(frame, b) < MAX_FRAMES_IN_FLIGHT,
{
    reveal_with_fuel(frame_after, 3);
}

} // verus!
