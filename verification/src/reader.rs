//! Incremental frame reader: a growing byte buffer that yields one
//! complete frame at a time. An incomplete frame never moves the buffer
//! position, so network reads may deliver arbitrary byte chunks.
use crate::frame::decoder::{copy_range, spec_parse_frame, FrameParse};
use crate::frame::{Error, Frame};
use vstd::prelude::*;

verus! {

/// The buffer contents after one `try_parse` call: a parsed frame is
/// consumed, anything else leaves the buffer untouched.
pub open spec fn spec_buffer_after_parse(buf: Seq<u8>) -> Seq<u8> {
    match spec_parse_frame(buf) {
        FrameParse::Parsed(_f, n) => buf.skip(n),
        _ => buf,
    }
}

/// Buffered bytes not yet consumed by a parsed frame.
pub struct FrameReader {
    buffer: Vec<u8>,
}

impl View for FrameReader {
    type V = Seq<u8>;

    closed spec fn view(&self) -> Seq<u8> {
        self.buffer@
    }
}

impl FrameReader {
    pub fn new() -> (r: FrameReader)
        ensures
            r@ == Seq::<u8>::empty(),
    {
        FrameReader { buffer: Vec::new() }
    }

    /// Appends newly received bytes to the buffer.
    pub fn feed(&mut self, bytes: &Vec<u8>)
        ensures
            final(self)@ == old(self)@ + bytes@,
    {
        self.buffer.extend_from_slice(bytes.as_slice());
    }

    /// Attempts to parse one frame from offset zero. On success the buffer
    /// advances by the frame's total length; on `Incomplete` (returned as
    /// `None`) the buffer is left exactly as it was; a malformed prefix is
    /// an error and also leaves the buffer untouched.
    pub fn try_parse(&mut self) -> (r: Result<Option<Frame>, Error>)
        ensures
            final(self)@ == spec_buffer_after_parse(old(self)@),
            (match r {
                Ok(Some(f)) => spec_parse_frame(old(self)@) matches FrameParse::Parsed(fv, n)
                    && fv == f@,
                Ok(None) => spec_parse_frame(old(self)@) is NeedMore,
                Err(e) => spec_parse_frame(old(self)@) == FrameParse::Bad(e),
            }),
    {
        match Frame::deserialize(&self.buffer) {
            Ok((f, n)) => {
                let rest = copy_range(&self.buffer, n, self.buffer.len());
                self.buffer = rest;
                proof {
                    assert(self.buffer@ =~= spec_buffer_after_parse(old(self)@));
                }
                Ok(Some(f))
            },
            Err(Error::Incomplete) => Ok(None),
            Err(e) => Err(e),
        }
    }
}

/// Law: a byte stream split at any point reads the same as the whole.
/// If the first chunk alone is incomplete, `try_parse` leaves it buffered,
/// so after the second chunk arrives the reader parses exactly what it
/// would have parsed had the bytes arrived in one piece.
pub proof fn lemma_split_feed(b1: Seq<u8>, b2: Seq<u8>)
    requires
        spec_parse_frame(b1) is NeedMore,
    ensures
        spec_parse_frame(spec_buffer_after_parse(b1) + b2) == spec_parse_frame(b1 + b2),
{
}

} // verus!
