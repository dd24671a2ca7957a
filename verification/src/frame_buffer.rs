//! The bounded frame buffer: a ring of slots that takes frames in at one
//! end, numbers them, hands them out by number while they are resident and
//! releases them oldest first.

use crate::frame::{
    frame_payload, read_frame, ByteSource, Frame, FrameError, FrameView, Status,
};
use crate::video_header::VideoHeader;
use vstd::prelude::*;

verus! {

/// Slots of the buffer between the decoder and the slicer.
pub const DEFAULT_CAPACITY: usize = 129;

/// The ring's bookkeeping and its slots.
pub struct FrameBufferData {
    finished: bool,
    frame_number: u64,
    head: usize,
    tail: usize,
    size: usize,
    frames: Vec<Frame>,
}

/// A buffer of at most `frames_len` resident frames.
pub struct FrameBuffer {
    video_header: VideoHeader,
    data: FrameBufferData,
    frame_size: usize,
    frames_len: usize,
}

/// The mathematical content of a `FrameBuffer`: the resident frames from
/// the oldest to the newest, the number that the next frame will get, and
/// whether the producer has met the end of its stream.
pub struct BufferView {
    pub capacity: nat,
    pub frame_size: nat,
    pub resident: Seq<FrameView>,
    pub next_number: nat,
    pub finished: bool,
}

impl BufferView {
    /// Number of the oldest resident frame; of the next frame where none is
    /// resident.
    pub open spec fn head_number(self) -> int {
        self.next_number - self.resident.len()
    }

    /// What holds of every buffer: at least one slot, no more residents
    /// than slots, and residents that own no pixels of their own, hold as
    /// many bytes as they say and carry consecutive numbers up to the next.
    pub open spec fn valid(self) -> bool {
        &&& self.capacity >= 1
        &&& self.resident.len() <= self.capacity
        &&& self.resident.len() <= self.next_number
        &&& forall|i: int|
            0 <= i < self.resident.len() ==> {
                &&& (#[trigger] self.resident[i]).num == self.head_number() + i
                &&& !self.resident[i].droppable
                &&& self.resident[i].data.len() == self.resident[i].data_len
            }
    }

    /// Whether one more frame can come in: a slot is free and a number is
    /// left to give.
    pub open spec fn has_room(self) -> bool {
        self.resident.len() < self.capacity && self.next_number < u64::MAX
    }

    /// The buffer after taking in a frame of the given pixels.
    pub open spec fn with_frame(self, data_len: nat, data: Seq<u8>) -> BufferView {
        BufferView {
            resident: self.resident.push(
                FrameView { droppable: false, data_len, num: self.next_number, data },
            ),
            next_number: self.next_number + 1,
            ..self
        }
    }

    /// The buffer after releasing its oldest frame.
    pub open spec fn without_oldest(self) -> BufferView {
        BufferView { resident: self.resident.drop_first(), ..self }
    }

    /// Whether the frame `n` is resident.
    pub open spec fn holds(self, n: int) -> bool {
        self.head_number() <= n < self.next_number
    }
}

/// One step in the life of a buffer.
pub enum BufferStep {
    /// The producer offers a frame of the given pixels.
    Add { data_len: nat, data: Seq<u8> },
    /// The consumer asks for the oldest frame.
    Pop,
    /// The producer meets the end of its stream.
    Finish,
}

/// A buffer together with the frames it has taken in and released so far.
pub struct BufferTrace {
    pub state: BufferView,
    pub taken: Seq<FrameView>,
    pub released: Seq<FrameView>,
}

/// An empty buffer of `capacity` slots.
pub open spec fn fresh(capacity: nat, frame_size: nat) -> BufferView {
    BufferView {
        capacity,
        frame_size,
        resident: Seq::<FrameView>::empty(),
        next_number: 0,
        finished: false,
    }
}

/// The buffer after `steps`, starting from `start`, with what it took in
/// and released on the way. A frame offered without room is not taken in;
/// a pop of an empty buffer releases nothing.
pub open spec fn trace(start: BufferView, steps: Seq<BufferStep>) -> BufferTrace
    decreases steps.len(),
{
    if steps.len() == 0 {
        BufferTrace {
            state: start,
            taken: Seq::<FrameView>::empty(),
            released: Seq::<FrameView>::empty(),
        }
    } else {
        let t = trace(start, steps.drop_last());
        match steps.last() {
            BufferStep::Add { data_len, data } => if t.state.has_room() {
                BufferTrace {
                    state: t.state.with_frame(data_len, data),
                    taken: t.taken.push(
                        FrameView { droppable: false, data_len, num: t.state.next_number, data },
                    ),
                    ..t
                }
            } else {
                t
            },
            BufferStep::Pop => if t.state.resident.len() > 0 {
                BufferTrace {
                    state: t.state.without_oldest(),
                    released: t.released.push(t.state.resident[0]),
                    ..t
                }
            } else {
                t
            },
            BufferStep::Finish => BufferTrace {
                state: BufferView { finished: true, ..t.state },
                ..t
            },
        }
    }
}

/// Taking a frame in keeps a buffer valid and gives the frame the next
/// number.
pub proof fn lemma_with_frame_valid(state: BufferView, data_len: nat, data: Seq<u8>)
    requires
        state.valid(),
        state.has_room(),
        data.len() == data_len,
    ensures
        state.with_frame(data_len, data).valid(),
        state.with_frame(data_len, data).head_number() == state.head_number(),
        state.with_frame(data_len, data).resident.last().num == state.next_number,
{
}

/// Releasing the oldest frame keeps a buffer valid and moves the oldest
/// number up by one.
pub proof fn lemma_without_oldest_valid(state: BufferView)
    requires
        state.valid(),
        state.resident.len() > 0,
    ensures
        state.without_oldest().valid(),
        state.resident[0].num == state.head_number(),
        state.without_oldest().head_number() == state.head_number() + 1,
{
}

/// Whatever the producer and the consumer do to a buffer that starts
/// empty: it never holds more frames than it has slots; the frames taken in
/// are numbered 0, 1, 2, ... in the order they came; the frames released are
/// the first of them, in the same order, each once; and the others are
/// resident, where a request by number finds each under its own number.
pub proof fn lemma_frames_delivered_in_order(
    capacity: nat,
    frame_size: nat,
    steps: Seq<BufferStep>,
)
    requires
        capacity >= 1,
        forall|i: int|
            0 <= i < steps.len() ==> (#[trigger] steps[i] matches BufferStep::Add { data_len, data }
                ==> data.len() == data_len),
    ensures
        ({
            let t = trace(fresh(capacity, frame_size), steps);
            &&& t.state.valid()
            &&& t.state.resident.len() <= capacity
            &&& t.state.capacity == capacity
            &&& t.state.next_number == t.taken.len()
            &&& t.released.len() <= t.taken.len()
            &&& t.released == t.taken.take(t.released.len() as int)
            &&& t.state.resident == t.taken.skip(t.released.len() as int)
            &&& forall|k: int| 0 <= k < t.taken.len() ==> (#[trigger] t.taken[k]).num == k
            &&& forall|k: int| 0 <= k < t.released.len() ==> (#[trigger] t.released[k]).num == k
            &&& forall|n: int|
                t.state.holds(n) ==> (#[trigger] t.state.resident[n - t.state.head_number()])
                    == t.taken[n]
        }),
    decreases steps.len(),
{
    let start = fresh(capacity, frame_size);
    let t = trace(start, steps);
    if steps.len() == 0 {
        assert(t.released =~= t.taken.take(0));
        assert(t.state.resident =~= t.taken.skip(0));
    } else {
        let before = steps.drop_last();
        lemma_frames_delivered_in_order(capacity, frame_size, before);
        let b = trace(start, before);
        assert(steps.last() == steps[steps.len() - 1]);
        match steps.last() {
            BufferStep::Add { data_len, data } => {
                if b.state.has_room() {
                    lemma_with_frame_valid(b.state, data_len, data);
                    assert(t.released =~= t.taken.take(t.released.len() as int));
                    assert(t.state.resident =~= t.taken.skip(t.released.len() as int));
                }
            },
            BufferStep::Pop => {
                if b.state.resident.len() > 0 {
                    lemma_without_oldest_valid(b.state);
                    assert(b.state.resident[0] == b.taken[b.released.len() as int]);
                    assert(t.released =~= t.taken.take(t.released.len() as int));
                    assert(t.state.resident =~= t.taken.skip(t.released.len() as int));
                }
            },
            BufferStep::Finish => {},
        }
        assert forall|k: int| 0 <= k < t.released.len() implies (#[trigger] t.released[k]).num
            == k by {
            assert(t.released[k] == t.taken[k]);
        }
        assert forall|n: int| t.state.holds(n) implies (#[trigger] t.state.resident[n
            - t.state.head_number()]) == t.taken[n] by {
            assert(t.state.resident[n - t.state.head_number()] == t.taken.skip(
                t.released.len() as int,
            )[n - t.released.len()]);
        }
    }
}

/// The slot `steps` after `from` in a ring of `len` slots.
pub open spec fn ring_index(from: int, steps: int, len: int) -> int {
    if from + steps >= len {
        from + steps - len
    } else {
        from + steps
    }
}

impl View for FrameBuffer {
    type V = BufferView;

    closed spec fn view(&self) -> BufferView {
        BufferView {
            capacity: self.frames_len as nat,
            frame_size: self.frame_size as nat,
            resident: Seq::new(self.data.size as nat, |i: int| self.slot(i)@),
            next_number: self.data.frame_number as nat,
            finished: self.data.finished,
        }
    }
}

impl FrameBuffer {
    /// The frame in the slot `steps` after the head.
    closed spec fn slot(&self, steps: int) -> Frame {
        self.data.frames@[ring_index(self.data.head as int, steps, self.frames_len as int)]
    }

    /// Whether the ring's bookkeeping agrees with its slots.
    pub closed spec fn wf(&self) -> bool {
        &&& self.frames_len >= 1
        &&& self.frame_size == self.video_header.frame_size()
        &&& self.frame_size <= isize::MAX
        &&& self.data.frames@.len() == self.frames_len
        &&& self.data.head < self.frames_len
        &&& self.data.tail == ring_index(
            self.data.head as int,
            self.data.size as int,
            self.frames_len as int,
        )
        &&& self.data.size <= self.frames_len
        &&& self.data.size <= self.data.frame_number
        &&& forall|i: int|
            0 <= i < self.frames_len ==> (#[trigger] self.data.frames@[i]).wf()
                && !self.data.frames@[i].droppable
        &&& forall|i: int|
            0 <= i < self.data.size ==> (#[trigger] self.slot(i)).num == self.data.frame_number
                - self.data.size + i
    }

    /// The header of the stream that the buffer holds frames of.
    pub closed spec fn header(&self) -> VideoHeader {
        self.video_header
    }

    /// A buffer whose bookkeeping is sound has a valid content, frames of
    /// the size that its header gives, and numbers that fit 64 bits.
    pub proof fn lemma_valid(&self)
        requires
            self.wf(),
        ensures
            self@.valid(),
            self@.frame_size == self.header().frame_size(),
            self@.next_number <= u64::MAX,
    {
    }

    /// An empty buffer of `frames` slots for the stream that `video_header`
    /// opens.
    pub fn new(frames: usize, video_header: VideoHeader) -> (buffer: FrameBuffer)
        requires
            frames >= 1,
            video_header.frame_size() <= isize::MAX,
        ensures
            buffer.wf(),
            buffer.header() == video_header,
            buffer@ == (BufferView {
                capacity: frames as nat,
                frame_size: video_header.frame_size(),
                resident: Seq::<FrameView>::empty(),
                next_number: 0,
                finished: false,
            }),
    {
        let frame_size = video_header.calc_frame_size();
        let mut slots: Vec<Frame> = Vec::new();
        let mut i: usize = 0;
        while i < frames
            invariant
                i <= frames,
                slots@.len() == i,
                forall|k: int| 0 <= k < i ==> (#[trigger] slots@[k]).wf() && !slots@[k].droppable,
            decreases frames - i,
        {
            slots.push(Frame { droppable: false, data_len: 0, num: 0, data: Vec::new() });
            i += 1;
        }
        let buffer = FrameBuffer {
            video_header,
            data: FrameBufferData {
                finished: false,
                frame_number: 0,
                head: 0,
                tail: 0,
                size: 0,
                frames: slots,
            },
            frame_size,
            frames_len: frames,
        };
        assert(buffer@.resident =~= Seq::<FrameView>::empty());
        buffer
    }

    /// Number of resident frames.
    pub fn size(&self) -> (n: usize)
        ensures
            n == self@.resident.len(),
    {
        self.data.size
    }

    /// Whether the producer has met the end of its stream.
    pub fn is_finished(&self) -> (finished: bool)
        ensures
            finished == self@.finished,
    {
        self.data.finished
    }

    /// Whether one more frame can come in.
    pub fn has_room(&self) -> (room: bool)
        ensures
            room == self@.has_room(),
    {
        self.data.size < self.frames_len && self.data.frame_number < u64::MAX
    }

    /// Number of the oldest resident frame; of the next frame where none is
    /// resident.
    pub fn head_number(&self) -> (n: u64)
        requires
            self.wf(),
        ensures
            n == self@.head_number(),
    {
        self.data.frame_number - self.data.size as u64
    }

    /// Takes the slot at the tail for the next frame: gives the frame its
    /// number and counts it in.
    fn reserve_frame(&mut self, frame: Frame) -> (slot: usize)
        requires
            old(self).wf(),
            old(self)@.has_room(),
            frame.wf(),
        ensures
            final(self).wf(),
            final(self).header() == old(self).header(),
            final(self)@ == old(self)@.with_frame(frame@.data_len, frame@.data),
            slot == old(self).data.tail,
    {
        let slot = self.data.tail;
        let ghost before = *self;
        let stored = Frame {
            droppable: false,
            data_len: frame.data_len,
            num: self.data.frame_number,
            data: frame.data,
        };
        self.data.frames[slot] = stored;
        self.data.tail = if slot + 1 >= self.frames_len {
            0
        } else {
            slot + 1
        };
        self.data.size = self.data.size + 1;
        self.data.frame_number = self.data.frame_number + 1;
        proof {
            let len = self.frames_len as int;
            let head = self.data.head as int;
            assert forall|i: int| 0 <= i < self.data.size implies (#[trigger] self.slot(i)).num
                == self.data.frame_number - self.data.size + i by {
                if i < before.data.size {
                    assert(ring_index(head, i, len) != slot);
                    assert(self.slot(i) == before.slot(i));
                }
            }
            assert forall|i: int| 0 <= i < self@.resident.len() implies self@.resident[i]
                == before@.with_frame(frame@.data_len, frame@.data).resident[i] by {
                if i < before.data.size {
                    assert(ring_index(head, i, len) != slot);
                }
            }
            assert(self@.resident =~= before@.with_frame(frame@.data_len, frame@.data).resident);
        }
        slot
    }

    /// Takes in a copy of the pixels of `frame` under the next number.
    /// Hands back whether there was room; without room nothing changes.
    pub fn add_frame(&mut self, frame: &Frame) -> (stored: bool)
        requires
            old(self).wf(),
            frame.wf(),
        ensures
            final(self).wf(),
            final(self).header() == old(self).header(),
            stored == old(self)@.has_room(),
            final(self)@ == if stored {
                old(self)@.with_frame(frame@.data_len, frame@.data)
            } else {
                old(self)@
            },
    {
        if !self.has_room() {
            return false;
        }
        let copy = frame.clone();
        let _ = self.reserve_frame(copy);
        true
    }

    /// The resident frame with the number `frame_num`, or `None` where no
    /// frame with that number has come in yet. A number below the oldest
    /// resident one is not to be asked for.
    pub fn get_frame(&self, frame_num: u64) -> (frame: Option<&Frame>)
        requires
            self.wf(),
            frame_num >= self@.head_number(),
        ensures
            frame is Some <==> self@.holds(frame_num as int),
            frame matches Some(f) ==> f@ == self@.resident[frame_num - self@.head_number()]
                && f@.num == frame_num,
    {
        if frame_num >= self.data.frame_number {
            return None;
        }
        let head_num: u64 = self.data.frame_number - self.data.size as u64;
        let offset: usize = (frame_num - head_num) as usize;
        let index: usize = if offset >= self.frames_len - self.data.head {
            offset - (self.frames_len - self.data.head)
        } else {
            self.data.head + offset
        };
        assert(index == ring_index(self.data.head as int, offset as int, self.frames_len as int));
        Some(&self.data.frames[index])
    }

    /// Reads the next frame of the stream from `reader` into the buffer.
    /// Without room, and where the frame cannot be read, the buffer stays
    /// as it was. On the clean end of the stream the buffer is marked as
    /// finished and holds no frame more than before.
    pub fn read_in_frame(&mut self, reader: &mut ByteSource) -> (status: Result<Status, FrameError>)
        requires
            old(self).wf(),
        ensures
            final(self).wf(),
            final(self).header() == old(self).header(),
            status == if old(self)@.has_room() {
                read_frame(old(reader)@, old(self)@.frame_size).0
            } else {
                Err(FrameError::BufferFull)
            },
            final(reader)@ == if old(self)@.has_room() {
                old(reader)@.skip(read_frame(old(reader)@, old(self)@.frame_size).1)
            } else {
                old(reader)@
            },
            final(self)@ == match status {
                Ok(Status::Processing) => old(self)@.with_frame(
                    old(self)@.frame_size,
                    frame_payload(old(reader)@, old(self)@.frame_size),
                ),
                Ok(Status::Completed) => BufferView { finished: true, ..old(self)@ },
                Err(_) => old(self)@,
            },
    {
        if !self.has_room() {
            return Err(FrameError::BufferFull);
        }
        let mut frame = Frame { droppable: false, data_len: 0, num: 0, data: Vec::new() };
        match frame.read(self.frame_size, self.data.frame_number, reader) {
            Ok(Status::Processing) => {
                let _ = self.reserve_frame(frame);
                Ok(Status::Processing)
            },
            Ok(Status::Completed) => {
                let ghost before = *self;
                self.data.finished = true;
                assert forall|i: int| 0 <= i < self.data.size implies (#[trigger] self.slot(
                    i,
                )).num == self.data.frame_number - self.data.size + i by {
                    assert(self.slot(i) == before.slot(i));
                }
                assert(self@.resident =~= before@.resident);
                Ok(Status::Completed)
            },
            Err(e) => Err(e),
        }
    }

    /// Releases the oldest resident frame and hands it out; `None` where no
    /// frame is resident.
    pub fn pop(&mut self) -> (frame: Option<Frame>)
        requires
            old(self).wf(),
        ensures
            final(self).wf(),
            final(self).header() == old(self).header(),
            frame is Some <==> old(self)@.resident.len() > 0,
            frame matches Some(f) ==> f@ == old(self)@.resident[0] && f.wf() && f@.num == old(
                self,
            )@.head_number(),
            final(self)@ == if frame is Some {
                old(self)@.without_oldest()
            } else {
                old(self)@
            },
    {
        if self.data.size == 0 {
            return None;
        }
        let ghost before = *self;
        let head = self.data.head;
        let mut out = Frame { droppable: false, data_len: 0, num: 0, data: Vec::new() };
        core::mem::swap(&mut self.data.frames[head], &mut out);
        self.data.size = self.data.size - 1;
        self.data.head = if head + 1 >= self.frames_len {
            0
        } else {
            head + 1
        };
        proof {
            let len = self.frames_len as int;
            assert(ring_index(head as int, 0, len) == head);
            assert(out == before.slot(0));
            assert forall|i: int| 0 <= i < self.data.size implies (#[trigger] self.slot(i)).num
                == self.data.frame_number - self.data.size + i by {
                assert(ring_index(self.data.head as int, i, len) == ring_index(
                    head as int,
                    i + 1,
                    len,
                ));
                assert(self.slot(i) == before.slot(i + 1));
            }
            assert forall|i: int| 0 <= i < self@.resident.len() implies self@.resident[i]
                == before@.without_oldest().resident[i] by {
                assert(self.slot(i) == before.slot(i + 1));
            }
            assert(self@.resident =~= before@.without_oldest().resident);
        }
        Some(out)
    }
}

} // verus!
