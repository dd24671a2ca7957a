//! Frames of raw pixels and their `FRAME`-delimited form in a stream.

use crate::scan::{find, find_byte, lemma_find_byte, LF};
use vstd::prelude::*;
use vstd::slice::{slice_subrange, slice_to_vec};

verus! {

/// Whether a read found another frame or the clean end of the stream.
#[derive(PartialEq, Eq, Debug, Copy, Clone, Structural)]
pub enum Status {
    Completed,
    Processing,
}

/// Why a frame could not be read in.
#[derive(PartialEq, Eq, Debug, Copy, Clone, Structural)]
pub enum FrameError {
    /// The line before the payload is not `FRAME`.
    BadMarker,
    /// The stream ends inside the payload.
    UnexpectedEof,
    /// The buffer has no free slot, or no sequence number left.
    BufferFull,
}

/// Bytes still to be read from an in-memory stream.
pub struct ByteSource {
    data: Vec<u8>,
    pos: usize,
}

impl View for ByteSource {
    type V = Seq<u8>;

    closed spec fn view(&self) -> Seq<u8> {
        self.data@.skip(self.pos as int)
    }
}

impl ByteSource {
    #[verifier::type_invariant]
    spec fn inv(self) -> bool {
        self.pos <= self.data@.len()
    }

    /// A source that yields `data` from its first byte.
    pub fn new(data: Vec<u8>) -> (source: ByteSource)
        ensures
            source@ == data@,
    {
        assert(data@.skip(0) =~= data@);
        ByteSource { data, pos: 0 }
    }

    /// Number of bytes left.
    pub fn len(&self) -> (n: usize)
        ensures
            n == self@.len(),
    {
        proof {
            use_type_invariant(self);
        }
        self.data.len() - self.pos
    }

    /// Takes the bytes up to and including the next `byte`, or all that is
    /// left where there is none.
    pub fn read_until(&mut self, byte: u8) -> (line: Vec<u8>)
        ensures
            line@ == old(self)@.take(line_len(old(self)@, byte)),
            final(self)@ == old(self)@.skip(line_len(old(self)@, byte)),
    {
        proof {
            use_type_invariant(&*self);
        }
        let rest = slice_subrange(self.data.as_slice(), self.pos, self.data.len());
        assert(rest@ =~= self@);
        let at = find(rest, byte, 0);
        let n = if at < rest.len() {
            at + 1
        } else {
            at
        };
        let line = slice_to_vec(slice_subrange(rest, 0, n));
        assert(self.data@.skip(self.pos + n) =~= self@.skip(n as int));
        self.pos = self.pos + n;
        line
    }

    /// Takes exactly `n` bytes. Where fewer are left, takes them all and
    /// hands back nothing.
    pub fn read_exact(&mut self, n: usize) -> (bytes: Option<Vec<u8>>)
        ensures
            bytes is Some <==> n <= old(self)@.len(),
            bytes matches Some(b) ==> b@ == old(self)@.take(n as int),
            final(self)@ == if n <= old(self)@.len() {
                old(self)@.skip(n as int)
            } else {
                Seq::<u8>::empty()
            },
    {
        proof {
            use_type_invariant(&*self);
        }
        let left = self.data.len() - self.pos;
        if n <= left {
            let bytes = slice_to_vec(
                slice_subrange(self.data.as_slice(), self.pos, self.pos + n),
            );
            assert(bytes@ =~= self@.take(n as int));
            assert(self.data@.skip(self.pos + n) =~= self@.skip(n as int));
            self.pos = self.pos + n;
            Some(bytes)
        } else {
            self.pos = self.data.len();
            assert(self.data@.skip(self.pos as int) =~= Seq::<u8>::empty());
            None
        }
    }
}

/// Length of the first line of `s`, its ending `byte` included; all of `s`
/// where no `byte` ends it.
pub open spec fn line_len(s: Seq<u8>, byte: u8) -> int {
    if find_byte(s, byte, 0) < s.len() {
        find_byte(s, byte, 0) + 1
    } else {
        s.len() as int
    }
}

/// The line `FRAME` with its line feed, which precedes every payload.
pub open spec fn frame_marker() -> Seq<u8> {
    seq![0x46u8, 0x52u8, 0x41u8, 0x4Du8, 0x45u8, 0x0Au8]
}

/// `data` cut or filled up with zero bytes to `len` bytes.
pub open spec fn resized(data: Seq<u8>, len: nat) -> Seq<u8> {
    Seq::new(
        len,
        |i: int|
            if i < data.len() {
                data[i]
            } else {
                0u8
            },
    )
}

/// A numbered frame. `data` holds `data_len` bytes of pixels.
pub struct Frame {
    pub droppable: bool,
    pub data_len: usize,
    pub num: u64,
    pub data: Vec<u8>,
}

/// The mathematical content of a `Frame`.
pub struct FrameView {
    pub droppable: bool,
    pub data_len: nat,
    pub num: nat,
    pub data: Seq<u8>,
}

impl View for Frame {
    type V = FrameView;

    open spec fn view(&self) -> FrameView {
        FrameView {
            droppable: self.droppable,
            data_len: self.data_len as nat,
            num: self.num as nat,
            data: self.data@,
        }
    }
}

/// What reading one frame of `frame_size` bytes from `stream` gives, and
/// how many bytes it takes. An empty stream is the clean end. Otherwise the
/// first line must be the marker, and `frame_size` bytes must follow it.
pub open spec fn read_frame(stream: Seq<u8>, frame_size: nat) -> (Result<Status, FrameError>, int) {
    let marker_len = line_len(stream, LF);
    if stream.len() == 0 {
        (Ok(Status::Completed), 0)
    } else if stream.take(marker_len) != frame_marker() {
        (Err(FrameError::BadMarker), marker_len)
    } else if stream.len() - marker_len < frame_size {
        (Err(FrameError::UnexpectedEof), stream.len() as int)
    } else {
        (Ok(Status::Processing), marker_len + frame_size)
    }
}

/// The payload of the frame that starts `stream`.
pub open spec fn frame_payload(stream: Seq<u8>, frame_size: nat) -> Seq<u8> {
    stream.subrange(line_len(stream, LF), line_len(stream, LF) + frame_size)
}

fn is_marker(line: &[u8]) -> (yes: bool)
    ensures
        yes == (line@ == frame_marker()),
{
    let yes = line.len() == 6 && line[0] == 0x46 && line[1] == 0x52 && line[2] == 0x41 && line[3]
        == 0x4D && line[4] == 0x45 && line[5] == 0x0A;
    proof {
        if yes {
            assert(line@ =~= frame_marker());
        }
    }
    yes
}

impl Frame {
    /// Whether the frame holds as many bytes as it says.
    pub open spec fn wf(&self) -> bool {
        self.data@.len() == self.data_len
    }

    /// A frame of `data_len` zero bytes with the number `num`.
    pub fn new(data_len: usize, num: u64) -> (frame: Frame)
        requires
            data_len <= isize::MAX,
        ensures
            frame.wf(),
            frame@ == (FrameView {
                droppable: true,
                data_len: data_len as nat,
                num: num as nat,
                data: resized(Seq::<u8>::empty(), data_len as nat),
            }),
    {
        let data: Vec<u8> = vec![0u8; data_len];
        assert(data@ =~= resized(Seq::<u8>::empty(), data_len as nat));
        Frame { droppable: true, data_len, num, data }
    }

    /// The frame's pixels.
    pub fn data(&self) -> (bytes: &[u8])
        ensures
            bytes@ == self.data@,
    {
        self.data.as_slice()
    }

    /// The frame's pixels, to be written in place.
    pub fn data_mut(&mut self) -> (bytes: &mut [u8])
        ensures
            bytes@ == old(self).data@,
            final(self).data@ == final(bytes)@,
            final(self).droppable == old(self).droppable,
            final(self).data_len == old(self).data_len,
            final(self).num == old(self).num,
    {
        self.data.as_mut_slice()
    }

    /// Reads the next frame of `frame_size` bytes from `reader` into this
    /// frame and gives it the number `frame_num`. On the clean end of the
    /// stream, and on an error, the pixels stay as they were, cut or
    /// zero-filled to `frame_size`.
    pub fn read(&mut self, frame_size: usize, frame_num: u64, reader: &mut ByteSource) -> (status:
        Result<Status, FrameError>)
        requires
            frame_size <= isize::MAX,
        ensures
            status == read_frame(old(reader)@, frame_size as nat).0,
            final(reader)@ == old(reader)@.skip(read_frame(old(reader)@, frame_size as nat).1),
            final(self).wf(),
            final(self).droppable == old(self).droppable,
            final(self).data_len == frame_size,
            final(self).num == frame_num,
            final(self).data@ == if status == Ok::<Status, FrameError>(Status::Processing) {
                frame_payload(old(reader)@, frame_size as nat)
            } else {
                resized(old(self).data@, frame_size as nat)
            },
    {
        self.data_len = frame_size;
        self.num = frame_num;
        let ghost stream = reader@;
        proof {
            lemma_find_byte(stream, LF, 0);
        }
        let marker = reader.read_until(LF);
        let status = if marker.len() == 0 {
            assert(stream.skip(0) =~= stream);
            Ok(Status::Completed)
        } else if !is_marker(marker.as_slice()) {
            Err(FrameError::BadMarker)
        } else {
            match reader.read_exact(frame_size) {
                Some(payload) => {
                    assert(payload@ =~= frame_payload(stream, frame_size as nat));
                    let ghost marker_len = line_len(stream, LF);
                    assert(stream.skip(marker_len).skip(frame_size as int) =~= stream.skip(
                        marker_len + frame_size,
                    ));
                    self.data = payload;
                    return Ok(Status::Processing);
                },
                None => {
                    assert(stream.skip(stream.len() as int) =~= Seq::<u8>::empty());
                    Err(FrameError::UnexpectedEof)
                },
            }
        };
        let ghost before = self.data@;
        self.data.resize(frame_size, 0u8);
        assert(self.data@ =~= resized(before, frame_size as nat));
        status
    }

    /// Appends the frame to `writer`: the marker line, then the pixels.
    pub fn write(&self, writer: &mut Vec<u8>)
        ensures
            final(writer)@ == old(writer)@ + frame_marker() + self.data@,
    {
        writer.push(0x46);
        writer.push(0x52);
        writer.push(0x41);
        writer.push(0x4D);
        writer.push(0x45);
        writer.push(0x0A);
        let mut pixels = self.data.clone();
        assert(pixels@ =~= self.data@);
        writer.append(&mut pixels);
        assert(writer@ =~= old(writer)@ + frame_marker() + self.data@);
    }

    /// Takes over the number, the length and the pixels of `source`; whether
    /// the frame owns its pixels stays as it was.
    pub fn clone_from(&mut self, source: &Frame)
        ensures
            final(self)@ == (FrameView { droppable: old(self).droppable, ..source@ }),
            source.wf() ==> final(self).wf(),
    {
        self.num = source.num;
        self.data_len = source.data_len;
        self.data = source.data.clone();
        assert(self.data@ =~= source.data@);
    }
}

impl Clone for Frame {
    /// A copy that owns its pixels.
    fn clone(&self) -> (copy: Frame)
        ensures
            copy@ == (FrameView { droppable: true, ..self@ }),
            self.wf() ==> copy.wf(),
    {
        let data = self.data.clone();
        assert(data@ =~= self.data@);
        Frame { droppable: true, data_len: self.data_len, num: self.num, data }
    }
}

} // verus!
