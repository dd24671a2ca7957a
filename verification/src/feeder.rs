//! The detector feeder: hands the buffer's frames to the scene detector in
//! the order of their numbers, and grants the keyframe sequencer one credit
//! for each.

use crate::frame::frame_marker;
use crate::frame_buffer::FrameBuffer;
use crate::slicer::{outcome_of, SliceOutcome};
use vstd::prelude::*;

verus! {

/// Credits that the keyframe sequencer waits for before it reads the
/// detector's statistics: the detector's lookahead and a margin.
pub const START_CREDITS: u32 = 96;

/// Credits granted for each frame that went to the detector.
pub const FRAME_CREDITS: usize = 1;

/// Credits granted once the detector has ended, so that the sequencer
/// reads on to the end of the statistics.
pub const FINAL_CREDITS: usize = 99999;

/// The feeder between two frames.
pub struct Feeder {
    next: u64,
}

impl View for Feeder {
    type V = nat;

    closed spec fn view(&self) -> nat {
        self.next as nat
    }
}

/// Credits to grant after a step of the feeder.
pub open spec fn credits_for(outcome: SliceOutcome) -> nat {
    match outcome {
        SliceOutcome::Written => FRAME_CREDITS as nat,
        SliceOutcome::Pending => 0,
        SliceOutcome::Finished => FINAL_CREDITS as nat,
    }
}

impl Feeder {
    /// A feeder that starts with the frame 0.
    pub fn new() -> (feeder: Feeder)
        ensures
            feeder@ == 0,
    {
        Feeder { next: 0 }
    }

    /// Number of the frame that goes to the detector next.
    pub fn next_frame(&self) -> (n: u64)
        ensures
            n == self@,
    {
        self.next
    }

    /// Appends the next frame to `detector_input` as it stands in a stream,
    /// and moves on by one frame. Nothing moves where the buffer does not
    /// hold the frame. The buffer keeps the frame. A frame below the
    /// buffer's oldest is not to be asked for.
    pub fn feed(&mut self, buffer: &FrameBuffer, detector_input: &mut Vec<u8>) -> (outcome:
        SliceOutcome)
        requires
            buffer.wf(),
            old(self)@ >= buffer@.head_number(),
        ensures
            outcome == outcome_of(buffer@, old(self)@ as int),
            outcome == SliceOutcome::Written ==> {
                &&& final(detector_input)@ == old(detector_input)@ + frame_marker()
                    + buffer@.resident[old(self)@ - buffer@.head_number()].data
                &&& final(self)@ == old(self)@ + 1
            },
            outcome != SliceOutcome::Written ==> {
                &&& final(detector_input)@ == old(detector_input)@
                &&& final(self)@ == old(self)@
            },
    {
        match buffer.get_frame(self.next) {
            Some(frame) => {
                frame.write(detector_input);
                proof {
                    buffer.lemma_valid();
                }
                self.next = self.next + 1;
                SliceOutcome::Written
            },
            None => if buffer.is_finished() {
                SliceOutcome::Finished
            } else {
                SliceOutcome::Pending
            },
        }
    }

    /// Credits to grant after a step of the feeder: one for a frame, the
    /// final grant at the end, none while the frame is awaited.
    pub fn credits(outcome: SliceOutcome) -> (credits: usize)
        ensures
            credits == credits_for(outcome),
    {
        match outcome {
            SliceOutcome::Written => FRAME_CREDITS,
            SliceOutcome::Pending => 0,
            SliceOutcome::Finished => FINAL_CREDITS,
        }
    }
}

} // verus!
