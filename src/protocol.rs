use vstd::prelude::*;
use crate::sink::{ByteSink, SinkState};
use crate::stream::{EventStream, ReadCallback};

verus! {

/// The reply of the ping responder: the text `pong!`.
pub open spec fn pong() -> Seq<u8> {
    seq![112u8, 111u8, 110u8, 103u8, 33u8]
}

/// A responder that answers every read notification with `pong!`, consuming
/// whatever had arrived. It never interprets the inbound bytes.
#[derive(Clone, Copy, PartialEq, Eq, Debug)]
pub struct PingProtocol {}

impl PingProtocol {
    /// Installs a ping responder as `stream`'s read callback.
    pub fn new<S: EventStream<Callback = PingProtocol>>(stream: &mut S) -> (r: PingProtocol)
        requires
            old(stream).well_formed(),
        ensures
            final(stream).well_formed(),
            final(stream).sink_state() == old(stream).sink_state(),
            final(stream).read_callback() == Some(r),
    {
        stream.set_read(PingProtocol {});
        PingProtocol {}
    }
}

impl ReadCallback for PingProtocol {
    open spec fn on_read_spec(&self, s: SinkState) -> SinkState {
        s.drained().write(pong())
    }

    fn on_read(&self, sink: &mut ByteSink) {
        let _request = sink.drain_read();
        let reply: Vec<u8> = vec![112u8, 111u8, 110u8, 103u8, 33u8]; // "pong!"
        assert(reply@ == pong());
        sink.push_write(reply.as_slice());
    }
}

/// A callback that writes back exactly the bytes it drains.
#[derive(Clone, Copy, PartialEq, Eq, Debug)]
pub struct Echo {}

impl ReadCallback for Echo {
    open spec fn on_read_spec(&self, s: SinkState) -> SinkState {
        s.drained().write(s.read)
    }

    fn on_read(&self, sink: &mut ByteSink) {
        let data = sink.drain_read();
        sink.push_write(data.as_slice());
    }
}

/// A callback that drains the inbound bytes and writes a fixed reply.
#[derive(Debug)]
pub struct FixedReply {
    pub reply: Vec<u8>,
}

impl ReadCallback for FixedReply {
    open spec fn on_read_spec(&self, s: SinkState) -> SinkState {
        s.drained().write(self.reply@)
    }

    fn on_read(&self, sink: &mut ByteSink) {
        let _request = sink.drain_read();
        sink.push_write(self.reply.as_slice());
    }
}

} // verus!
