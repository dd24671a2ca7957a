//! The keyframe sequencer: walks the statistics records with a lookahead
//! of sixteen, turns each into one event, and forces a keyframe where none
//! came for a thousand frames.

use crate::aom_firstpass::AomFirstpass;
use crate::binary64::{lemma_truncated_fits, truncated};
use std::collections::VecDeque;
use vstd::prelude::*;

verus! {

/// Records held ahead of the one that is being decided.
pub const LOOKAHEAD: usize = 16;

/// Frames since the last keyframe at which the next one is forced.
pub const FORCED_KEYFRAME_GAP: u64 = 1000;

/// One decoded frame's verdict.
#[derive(PartialEq, Eq, Debug, Copy, Clone, Structural)]
pub struct FrameStats {
    pub frame_num: u64,
    pub is_keyframe: bool,
}

/// The sequencer between two decisions.
pub struct StatsProcessor {
    last: AomFirstpass,
    current: AomFirstpass,
    lookahead: VecDeque<AomFirstpass>,
    since_last_keyframe: u64,
}

/// The mathematical content of a `StatsProcessor`.
pub struct ProcessorView {
    pub last: AomFirstpass,
    pub current: AomFirstpass,
    pub lookahead: Seq<AomFirstpass>,
    pub since_last_keyframe: nat,
}

/// Whether a frame starts a scene: the heuristic fired on it, or a
/// thousand frames have passed since the last keyframe.
pub open spec fn starts_scene(since_last_keyframe: nat, candidate: bool) -> bool {
    since_last_keyframe >= FORCED_KEYFRAME_GAP || candidate
}

/// The event of a record that was not looked at: no keyframe.
pub open spec fn plain_event(record: AomFirstpass) -> FrameStats {
    FrameStats { frame_num: truncated(record.frame) as u64, is_keyframe: false }
}

impl ProcessorView {
    /// The sequencer at the start of a stream: the first record is both
    /// the current and the last one, and counts as the first frame since a
    /// keyframe.
    pub open spec fn started(first: AomFirstpass, lookahead: Seq<AomFirstpass>) -> ProcessorView {
        ProcessorView { last: first, current: first, lookahead, since_last_keyframe: 1 }
    }

    /// Whether a decision can be made: the lookahead is full.
    pub open spec fn ready(self) -> bool {
        self.lookahead.len() == LOOKAHEAD && 1 <= self.since_last_keyframe <= FORCED_KEYFRAME_GAP
    }

    /// Whether a decision was made and the lookahead waits for one record.
    pub open spec fn hungry(self) -> bool {
        self.lookahead.len() + 1 == LOOKAHEAD && 1 <= self.since_last_keyframe
            <= FORCED_KEYFRAME_GAP
    }

    /// The event for the current record, given what the heuristic said.
    pub open spec fn event(self, candidate: bool) -> FrameStats {
        FrameStats {
            frame_num: truncated(self.current.frame) as u64,
            is_keyframe: starts_scene(self.since_last_keyframe, candidate),
        }
    }

    /// The sequencer after the decision: the count starts anew after a
    /// keyframe, and the window moves on by one record.
    pub open spec fn decided(self, candidate: bool) -> ProcessorView {
        ProcessorView {
            last: self.current,
            current: self.lookahead[0],
            lookahead: self.lookahead.drop_first(),
            since_last_keyframe: if starts_scene(self.since_last_keyframe, candidate) {
                1
            } else {
                self.since_last_keyframe + 1
            },
        }
    }

    /// The sequencer after one more record has come in.
    pub open spec fn refilled(self, record: AomFirstpass) -> ProcessorView {
        ProcessorView { lookahead: self.lookahead.push(record), ..self }
    }

    /// The events at the end of the stream: the current record and all that
    /// is held ahead, none of them a keyframe.
    pub open spec fn drained(self) -> Seq<FrameStats> {
        seq![plain_event(self.current)] + self.lookahead.map_values(
            |r: AomFirstpass| plain_event(r),
        )
    }

    /// All events from here to the end of the stream, where `rest` holds
    /// the records still to come and `fires(i)` is what the heuristic says
    /// at the `i`-th decision.
    pub open spec fn run(
        self,
        rest: Seq<AomFirstpass>,
        fires: spec_fn(int) -> bool,
        step: int,
    ) -> Seq<FrameStats>
        decreases rest.len(),
    {
        let event = self.event(fires(step));
        let next = self.decided(fires(step));
        if rest.len() == 0 {
            seq![event] + next.drained()
        } else {
            seq![event] + next.refilled(rest[0]).run(rest.drop_first(), fires, step + 1)
        }
    }
}

/// All events of a stream of at least seventeen records.
pub open spec fn events_of(records: Seq<AomFirstpass>, fires: spec_fn(int) -> bool) -> Seq<
    FrameStats,
> {
    ProcessorView::started(records[0], records.subrange(1, 1 + LOOKAHEAD as int)).run(
        records.skip(1 + LOOKAHEAD as int),
        fires,
        0,
    )
}

/// Whether one of the events up to the one at `upto` is a keyframe.
pub open spec fn keyframe_within(events: Seq<FrameStats>, upto: int) -> bool {
    exists|j: int| 0 <= j <= upto && j < events.len() && (#[trigger] events[j]).is_keyframe
}

/// A thousand frames after the last keyframe the next one is forced,
/// whatever the heuristic says; before that the heuristic alone decides.
pub proof fn lemma_forced_keyframe(view: ProcessorView, candidate: bool)
    ensures
        view.since_last_keyframe >= FORCED_KEYFRAME_GAP ==> view.event(candidate).is_keyframe,
        view.since_last_keyframe >= FORCED_KEYFRAME_GAP ==> view.event(candidate) == view.event(
            !candidate,
        ),
        view.since_last_keyframe < FORCED_KEYFRAME_GAP ==> view.event(candidate).is_keyframe
            == candidate,
{
}

/// From a window over `all` that starts at `at`, the run gives one event
/// for each record from `at` on, in the order of the records.
proof fn lemma_run_covers(
    view: ProcessorView,
    rest: Seq<AomFirstpass>,
    fires: spec_fn(int) -> bool,
    step: int,
    all: Seq<AomFirstpass>,
    at: int,
)
    requires
        0 <= at,
        at + 1 + LOOKAHEAD <= all.len(),
        view.current == all[at],
        view.lookahead == all.subrange(at + 1, at + 1 + LOOKAHEAD),
        rest == all.skip(at + 1 + LOOKAHEAD),
    ensures
        view.run(rest, fires, step).len() == all.len() - at,
        forall|k: int|
            0 <= k < all.len() - at ==> (#[trigger] view.run(rest, fires, step)[k]).frame_num
                == plain_event(all[at + k]).frame_num,
        forall|k: int|
            all.len() - at - LOOKAHEAD <= k < all.len() - at ==> !(#[trigger] view.run(
                rest,
                fires,
                step,
            )[k]).is_keyframe,
    decreases rest.len(),
{
    let events = view.run(rest, fires, step);
    let event = view.event(fires(step));
    let next = view.decided(fires(step));
    assert(next.current == all[at + 1]);
    if rest.len() == 0 {
        let tail = next.drained();
        assert(next.lookahead =~= all.subrange(at + 2, at + 1 + LOOKAHEAD));
        assert(events =~= seq![event] + tail);
        assert(tail.len() == LOOKAHEAD);
        assert forall|k: int| 1 <= k < all.len() - at implies #[trigger] events[k] == plain_event(
            all[at + k],
        ) by {
            assert(events[k] == tail[k - 1]);
            if k > 1 {
                assert(tail[k - 1] == plain_event(next.lookahead[k - 2]));
            }
        }
    } else {
        let moved = next.refilled(rest[0]);
        let later = rest.drop_first();
        assert(moved.lookahead =~= all.subrange(at + 2, at + 2 + LOOKAHEAD));
        assert(later =~= all.skip(at + 2 + LOOKAHEAD));
        lemma_run_covers(moved, later, fires, step + 1, all, at + 1);
        let tail = moved.run(later, fires, step + 1);
        assert(events =~= seq![event] + tail);
        assert forall|k: int| 1 <= k < all.len() - at implies #[trigger] events[k] == tail[k
            - 1] by {}
    }
}

/// From a sequencer that is ready, once the count of frames since the last
/// keyframe would pass a thousand, a keyframe has come.
proof fn lemma_run_forces(
    view: ProcessorView,
    rest: Seq<AomFirstpass>,
    fires: spec_fn(int) -> bool,
    step: int,
)
    requires
        1 <= view.since_last_keyframe <= FORCED_KEYFRAME_GAP,
    ensures
        forall|k: int|
            0 <= k <= rest.len() && view.since_last_keyframe + k >= FORCED_KEYFRAME_GAP
                ==> #[trigger] keyframe_within(view.run(rest, fires, step), k),
    decreases rest.len(),
{
    let events = view.run(rest, fires, step);
    let event = view.event(fires(step));
    let next = view.decided(fires(step));
    if rest.len() == 0 {
        assert(events[0] == event);
        assert forall|k: int|
            0 <= k <= rest.len() && view.since_last_keyframe + k
                >= FORCED_KEYFRAME_GAP implies #[trigger] keyframe_within(events, k) by {
            assert(events[0].is_keyframe);
        }
    } else {
        let moved = next.refilled(rest[0]);
        let later = rest.drop_first();
        lemma_run_forces(moved, later, fires, step + 1);
        let tail = moved.run(later, fires, step + 1);
        assert(events =~= seq![event] + tail);
        assert forall|k: int|
            0 <= k <= rest.len() && view.since_last_keyframe + k
                >= FORCED_KEYFRAME_GAP implies #[trigger] keyframe_within(events, k) by {
            if event.is_keyframe {
                assert(events[0].is_keyframe);
            } else {
                assert(moved.since_last_keyframe == view.since_last_keyframe + 1);
                assert(keyframe_within(tail, k - 1));
                let j = choose|j: int|
                    0 <= j <= k - 1 && j < tail.len() && (#[trigger] tail[j]).is_keyframe;
                assert(events[j + 1] == tail[j]);
                assert(events[j + 1].is_keyframe);
            }
        }
    }
}

/// A stream of at least seventeen records gives one event per record, in
/// the order of the records and with each record's frame number: records
/// numbered 0, 1, 2, ... give events numbered 0, 1, 2, ... without gap or
/// repeat. The last sixteen events are no keyframes. Among the first
/// thousand decisions at least one is a keyframe.
pub proof fn lemma_one_event_per_record(records: Seq<AomFirstpass>, fires: spec_fn(int) -> bool)
    requires
        records.len() >= 1 + LOOKAHEAD,
    ensures
        events_of(records, fires).len() == records.len(),
        forall|k: int|
            0 <= k < records.len() ==> (#[trigger] events_of(records, fires)[k]).frame_num
                == truncated(records[k].frame),
        (forall|k: int| 0 <= k < records.len() ==> truncated(#[trigger] records[k].frame) == k)
            ==> forall|k: int|
            0 <= k < records.len() ==> (#[trigger] events_of(records, fires)[k]).frame_num == k,
        forall|k: int|
            records.len() - LOOKAHEAD <= k < records.len() ==> !(#[trigger] events_of(
                records,
                fires,
            )[k]).is_keyframe,
        forall|k: int|
            FORCED_KEYFRAME_GAP - 1 <= k < records.len() - LOOKAHEAD ==> #[trigger] keyframe_within(
                events_of(records, fires),
                k,
            ),
{
    let view = ProcessorView::started(records[0], records.subrange(1, 1 + LOOKAHEAD as int));
    let rest = records.skip(1 + LOOKAHEAD as int);
    lemma_run_covers(view, rest, fires, 0, records, 0);
    lemma_run_forces(view, rest, fires, 0);
    let events = events_of(records, fires);
    assert forall|k: int| 0 <= k < records.len() implies (#[trigger] events[k]).frame_num
        == truncated(records[k].frame) by {
        lemma_truncated_fits(records[k].frame);
        assert(events[k].frame_num == plain_event(records[0 + k]).frame_num);
    }
}

impl View for StatsProcessor {
    type V = ProcessorView;

    closed spec fn view(&self) -> ProcessorView {
        ProcessorView {
            last: self.last,
            current: self.current,
            lookahead: self.lookahead@,
            since_last_keyframe: self.since_last_keyframe as nat,
        }
    }
}

impl StatsProcessor {
    /// The sequencer at the start of a stream, with the first record and
    /// the sixteen that follow it.
    pub fn new(first: AomFirstpass, lookahead: VecDeque<AomFirstpass>) -> (processor:
        StatsProcessor)
        requires
            lookahead@.len() == LOOKAHEAD,
        ensures
            processor@ == ProcessorView::started(first, lookahead@),
            processor@.ready(),
    {
        StatsProcessor { last: first, current: first, lookahead, since_last_keyframe: 1 }
    }

    /// The record that is up for decision.
    pub fn current(&self) -> (record: &AomFirstpass)
        ensures
            *record == self@.current,
    {
        &self.current
    }

    /// The record that was decided before; the first record at the start.
    pub fn last(&self) -> (record: &AomFirstpass)
        ensures
            *record == self@.last,
    {
        &self.last
    }

    /// The records held ahead, the next one first.
    pub fn lookahead(&self) -> (records: &VecDeque<AomFirstpass>)
        ensures
            records@ == self@.lookahead,
    {
        &self.lookahead
    }

    /// Frames since the last keyframe, the current one counted.
    pub fn since_last_keyframe(&self) -> (frames: u64)
        ensures
            frames == self@.since_last_keyframe,
    {
        self.since_last_keyframe
    }

    /// Decides on the current record, given what the heuristic said of it,
    /// and moves on to the next.
    pub fn decide(&mut self, candidate: bool) -> (event: FrameStats)
        requires
            old(self)@.ready(),
        ensures
            event == old(self)@.event(candidate),
            final(self)@ == old(self)@.decided(candidate),
            final(self)@.hungry(),
    {
        let is_keyframe = self.since_last_keyframe >= FORCED_KEYFRAME_GAP || candidate;
        let event = FrameStats { frame_num: self.current.frame_number(), is_keyframe };
        if is_keyframe {
            self.since_last_keyframe = 0;
        }
        self.since_last_keyframe = self.since_last_keyframe + 1;
        self.last = self.current;
        match self.lookahead.pop_front() {
            Some(next) => {
                self.current = next;
            },
            None => {},
        }
        assert(self.lookahead@ =~= old(self).lookahead@.drop_first());
        event
    }

    /// Takes the next record of the stream into the lookahead.
    pub fn refill(&mut self, record: AomFirstpass)
        requires
            old(self)@.hungry(),
        ensures
            final(self)@ == old(self)@.refilled(record),
            final(self)@.ready(),
    {
        self.lookahead.push_back(record);
    }

    /// Ends the stream: the events of all records still held, none of them
    /// a keyframe.
    pub fn drain(self) -> (events: Vec<FrameStats>)
        ensures
            events@ == self@.drained(),
    {
        let mut events: Vec<FrameStats> = Vec::new();
        events.push(FrameStats { frame_num: self.current.frame_number(), is_keyframe: false });
        let mut i: usize = 0;
        while i < self.lookahead.len()
            invariant
                i <= self.lookahead@.len(),
                events@.len() == i + 1,
                events@[0] == plain_event(self.current),
                forall|k: int| 0 <= k < i ==> events@[k + 1] == plain_event(self.lookahead@[k]),
            decreases self.lookahead@.len() - i,
        {
            let record = self.lookahead[i];
            events.push(FrameStats { frame_num: record.frame_number(), is_keyframe: false });
            i += 1;
        }
        assert(events@ =~= self@.drained());
        events
    }
}

} // verus!
