use vstd::prelude::*;
use bytebuffer::ByteBuffer;
use crate::buffer::{buffer_appends, buffer_bytes};
use vstd::slice::slice_to_vec;

verus! {

/// What a sink holds: the inbound bytes not yet consumed, and every byte
/// written out so far.
pub ghost struct SinkState {
    pub read: Seq<u8>,
    pub written: Seq<u8>,
}

impl SinkState {
    pub open spec fn empty() -> SinkState {
        SinkState { read: Seq::empty(), written: Seq::empty() }
    }

    /// Bytes appended to the outbound buffer.
    pub open spec fn write(self, bytes: Seq<u8>) -> SinkState {
        SinkState { read: self.read, written: self.written + bytes }
    }

    /// Bytes arriving on the inbound buffer.
    pub open spec fn deliver(self, bytes: Seq<u8>) -> SinkState {
        SinkState { read: self.read + bytes, written: self.written }
    }

    /// The inbound buffer emptied.
    pub open spec fn drained(self) -> SinkState {
        SinkState { read: Seq::empty(), written: self.written }
    }
}

/// The pair of buffers behind a stream: an outbound buffer that only grows,
/// and an inbound buffer that arrivals fill and readers drain.
pub struct ByteSink {
    write_buff: ByteBuffer,
    read_buff: ByteBuffer,
}

impl View for ByteSink {
    type V = SinkState;

    closed spec fn view(&self) -> SinkState {
        SinkState { read: buffer_bytes(self.read_buff), written: buffer_bytes(self.write_buff) }
    }
}

impl ByteSink {
    /// Both buffers append at their end.
    pub closed spec fn wf(&self) -> bool {
        buffer_appends(self.write_buff) && buffer_appends(self.read_buff)
    }

    pub fn new() -> (r: ByteSink)
        ensures
            r.wf(),
            r@ == SinkState::empty(),
    {
        ByteSink { write_buff: ByteBuffer::new(), read_buff: ByteBuffer::new() }
    }

    /// Appends `bytes` to the outbound buffer.
    pub fn push_write(&mut self, bytes: &[u8])
        requires
            old(self).wf(),
        ensures
            final(self).wf(),
            final(self)@ == old(self)@.write(bytes@),
    {
        self.write_buff.write_bytes(bytes);
    }

    /// Appends `bytes` to the inbound buffer, as if they had arrived.
    pub fn deliver(&mut self, bytes: &[u8])
        requires
            old(self).wf(),
        ensures
            final(self).wf(),
            final(self)@ == old(self)@.deliver(bytes@),
    {
        self.read_buff.write_bytes(bytes);
    }

    /// The inbound bytes not yet consumed.
    pub fn read_bytes(&self) -> (r: Vec<u8>)
        ensures
            r@ == self@.read,
    {
        slice_to_vec(self.read_buff.as_bytes())
    }

    /// Everything written out so far.
    pub fn written(&self) -> (r: Vec<u8>)
        ensures
            r@ == self@.written,
    {
        slice_to_vec(self.write_buff.as_bytes())
    }

    /// Takes the inbound bytes, leaving the inbound buffer empty.
    pub fn drain_read(&mut self) -> (r: Vec<u8>)
        requires
            old(self).wf(),
        ensures
            final(self).wf(),
            r@ == old(self)@.read,
            final(self)@ == old(self)@.drained(),
    {
        let data = slice_to_vec(self.read_buff.as_bytes());
        self.read_buff.clear();
        data
    }
}

/// Round trip: bytes delivered to an empty inbound buffer drain back
/// exactly, and a second drain yields nothing; the outbound buffer is left
/// as it was.
pub proof fn lemma_deliver_then_drain(s: SinkState, bytes: Seq<u8>)
    requires
        s.read.len() == 0,
    ensures
        s.deliver(bytes).read == bytes,
        s.deliver(bytes).drained().read == Seq::<u8>::empty(),
        s.deliver(bytes).drained().written == s.written,
{
    assert(s.read + bytes =~= bytes);
}

} // verus!
