//! The scene slicer: cuts the stream of frames into scenes at keyframe
//! events and moves each frame from the buffer into its scene's file.

use crate::frame::frame_marker;
use crate::frame_buffer::{BufferView, FrameBuffer};
use crate::stats_processor::FrameStats;
use vstd::prelude::*;

verus! {

/// What became of the frame that an event names.
#[derive(PartialEq, Eq, Debug, Copy, Clone, Structural)]
pub enum SliceOutcome {
    /// The frame went into the scene, and the buffer released its oldest.
    Written,
    /// The frame has not come in yet, and the producer goes on.
    Pending,
    /// The frame will not come: the producer has met the end.
    Finished,
}

/// The slicer between two events.
pub struct Slicer {
    scene: u32,
    nonempty: bool,
}

/// The mathematical content of a `Slicer`: the index of the open scene and
/// whether a frame went into it.
pub struct SlicerView {
    pub scene: nat,
    pub nonempty: bool,
}

impl SlicerView {
    /// Whether an event ends the open scene: it is a keyframe, and the
    /// scene holds a frame.
    pub open spec fn cuts(self, event: FrameStats) -> bool {
        event.is_keyframe && self.nonempty
    }

    /// The slicer after looking at an event, before its frame is moved.
    pub open spec fn after_cut(self, event: FrameStats) -> SlicerView {
        if self.cuts(event) {
            SlicerView { scene: self.scene + 1, nonempty: false }
        } else {
            self
        }
    }
}

impl SlicerView {
    /// The slicer after an event's frame went into the open scene.
    pub open spec fn after_store(self) -> SlicerView {
        SlicerView { nonempty: true, ..self }
    }

    /// The slicer after the first `count` of `events`, each with its frame.
    pub open spec fn after_events(self, events: Seq<FrameStats>, count: nat) -> SlicerView
        decreases count,
    {
        if count == 0 {
            self
        } else {
            self.after_events(events, (count - 1) as nat).after_cut(
                events[count - 1],
            ).after_store()
        }
    }
}

/// The slicer before the first event: the scene 0, open and empty.
pub open spec fn fresh_slicer() -> SlicerView {
    SlicerView { scene: 0, nonempty: false }
}

/// The scene that the frame of the event at `index` goes into: the number
/// of keyframes among the events after the first, up to this one.
pub open spec fn scene_of(events: Seq<FrameStats>, index: int) -> nat
    decreases index,
{
    if index <= 0 {
        0
    } else if events[index].is_keyframe {
        scene_of(events, index - 1) + 1
    } else {
        scene_of(events, index - 1)
    }
}

/// A slicer that starts fresh puts the first frame into the scene 0 and
/// each later frame into the scene of the frame before it, or into the next
/// scene where its event is a keyframe. So the scenes are numbered 0, 1,
/// 2, ... without gap, none is empty, and each but the first starts with a
/// keyframe.
pub proof fn lemma_scenes_in_order(events: Seq<FrameStats>, index: int)
    requires
        0 <= index < events.len(),
    ensures
        fresh_slicer().after_events(events, index as nat).after_cut(events[index]).scene
            == scene_of(events, index),
        fresh_slicer().after_events(events, (index + 1) as nat).scene == scene_of(events, index),
        fresh_slicer().after_events(events, (index + 1) as nat).nonempty,
        index > 0 ==> scene_of(events, index - 1) <= scene_of(events, index) <= scene_of(
            events,
            index - 1,
        ) + 1,
        index > 0 ==> (scene_of(events, index) != scene_of(events, index - 1)
            <==> events[index].is_keyframe),
    decreases index,
{
    if index > 0 {
        lemma_scenes_in_order(events, index - 1);
    }
}

impl View for Slicer {
    type V = SlicerView;

    closed spec fn view(&self) -> SlicerView {
        SlicerView { scene: self.scene as nat, nonempty: self.nonempty }
    }
}

/// What moving the frame `n` out of a buffer comes to.
pub open spec fn outcome_of(buffer: BufferView, n: int) -> SliceOutcome {
    if buffer.holds(n) {
        SliceOutcome::Written
    } else if buffer.finished {
        SliceOutcome::Finished
    } else {
        SliceOutcome::Pending
    }
}

impl Slicer {
    /// A slicer with the scene 0 open and empty.
    pub fn new() -> (slicer: Slicer)
        ensures
            slicer@ == (SlicerView { scene: 0, nonempty: false }),
    {
        Slicer { scene: 0, nonempty: false }
    }

    /// Index of the open scene.
    pub fn scene(&self) -> (index: u32)
        ensures
            index == self@.scene,
    {
        self.scene
    }

    /// Looks at an event before its frame is moved. Where the event ends
    /// the open scene, hands out that scene's index, to be closed and
    /// compressed, and opens the next scene.
    pub fn cut(&mut self, event: &FrameStats) -> (closed: Option<u32>)
        requires
            old(self)@.scene < u32::MAX,
        ensures
            closed is Some <==> old(self)@.cuts(*event),
            closed matches Some(index) ==> index == old(self)@.scene,
            final(self)@ == old(self)@.after_cut(*event),
    {
        if event.is_keyframe && self.nonempty {
            let closed = self.scene;
            self.scene = self.scene + 1;
            self.nonempty = false;
            Some(closed)
        } else {
            None
        }
    }

    /// Moves the frame `frame_num` into the open scene: appends it to
    /// `scene_file` as it stands in a stream, and lets the buffer release
    /// its oldest frame. Nothing moves where the buffer does not hold the
    /// frame. A number below the buffer's oldest is not to be asked for.
    pub fn store(
        &mut self,
        buffer: &mut FrameBuffer,
        frame_num: u64,
        scene_file: &mut Vec<u8>,
    ) -> (outcome: SliceOutcome)
        requires
            old(buffer).wf(),
            frame_num >= old(buffer)@.head_number(),
        ensures
            final(buffer).wf(),
            final(buffer).header() == old(buffer).header(),
            outcome == outcome_of(old(buffer)@, frame_num as int),
            outcome == SliceOutcome::Written ==> {
                &&& final(scene_file)@ == old(scene_file)@ + frame_marker() + old(
                    buffer,
                )@.resident[frame_num - old(buffer)@.head_number()].data
                &&& final(buffer)@ == old(buffer)@.without_oldest()
                &&& final(self)@ == old(self)@.after_store()
            },
            outcome != SliceOutcome::Written ==> {
                &&& final(scene_file)@ == old(scene_file)@
                &&& final(buffer)@ == old(buffer)@
                &&& final(self)@ == old(self)@
            },
    {
        match buffer.get_frame(frame_num) {
            Some(frame) => {
                frame.write(scene_file);
            },
            None => {
                return if buffer.is_finished() {
                    SliceOutcome::Finished
                } else {
                    SliceOutcome::Pending
                };
            },
        }
        let _ = buffer.pop();
        self.nonempty = true;
        SliceOutcome::Written
    }

    /// Ends the slicing: the index of the last scene, which is still to be
    /// closed and compressed.
    pub fn finish(self) -> (last: u32)
        ensures
            last == self@.scene,
    {
        self.scene
    }
}

} // verus!
