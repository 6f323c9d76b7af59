use vstd::prelude::*;
use crate::sink::{ByteSink, SinkState};

verus! {

/// A read callback: what a stream runs when inbound data is signalled.
///
/// The callback gets the stream's buffers as its capability surface: it may
/// drain or inspect the inbound bytes and append outbound ones. Its effect is
/// a function of the buffers alone, so a replay that fires it is
/// reproducible.
pub trait ReadCallback {
    /// The buffers after one firing, given the buffers before it.
    spec fn on_read_spec(&self, s: SinkState) -> SinkState;

    fn on_read(&self, sink: &mut ByteSink)
        requires
            old(sink).wf(),
        ensures
            final(sink).wf(),
            final(sink)@ == self.on_read_spec(old(sink)@),
    ;
}

/// The buffers after a stream with callback slot `cb` is fired: an empty slot
/// changes nothing.
pub open spec fn fire<C: ReadCallback>(cb: Option<C>, s: SinkState) -> SinkState {
    match cb {
        Some(c) => c.on_read_spec(s),
        None => s,
    }
}

/// A duplex byte stream with a single read-callback slot.
pub trait EventStream {
    type Callback;

    spec fn well_formed(&self) -> bool;

    /// The stream's buffers.
    spec fn sink_state(&self) -> SinkState;

    /// The registered read callback, if any.
    spec fn read_callback(&self) -> Option<Self::Callback>;

    /// Appends `buf` to the outbound buffer.
    fn push_write(&mut self, buf: &[u8])
        requires
            old(self).well_formed(),
        ensures
            final(self).well_formed(),
            final(self).sink_state() == old(self).sink_state().write(buf@),
            final(self).read_callback() == old(self).read_callback(),
    ;

    /// Registers `f`, replacing any callback registered before.
    fn set_read(&mut self, f: Self::Callback)
        requires
            old(self).well_formed(),
        ensures
            final(self).well_formed(),
            final(self).sink_state() == old(self).sink_state(),
            final(self).read_callback() == Some(f),
    ;
}

/// A stream over a `ByteSink`, holding at most one read callback of type `C`.
pub struct ByteEventSteam<C> {
    sink: ByteSink,
    read_cb: Option<C>,
}

impl<C: ReadCallback> EventStream for ByteEventSteam<C> {
    type Callback = C;

    closed spec fn well_formed(&self) -> bool {
        self.sink.wf()
    }

    closed spec fn sink_state(&self) -> SinkState {
        self.sink@
    }

    closed spec fn read_callback(&self) -> Option<C> {
        self.read_cb
    }

    fn push_write(&mut self, buf: &[u8]) {
        self.sink.push_write(buf);
    }

    fn set_read(&mut self, f: C) {
        self.read_cb = Some(f);
    }
}

impl<C: ReadCallback> ByteEventSteam<C> {
    /// A stream with empty buffers and no callback.
    pub fn new() -> (r: Self)
        ensures
            r.well_formed(),
            r.sink_state() == SinkState::empty(),
            r.read_callback() == None::<C>,
    {
        ByteEventSteam { sink: ByteSink::new(), read_cb: None }
    }

    /// Runs the registered callback on this stream's buffers; with no
    /// callback registered, does nothing.
    pub fn trigger_read_cb(&mut self)
        requires
            old(self).well_formed(),
        ensures
            final(self).well_formed(),
            final(self).sink_state() == fire(old(self).read_callback(), old(self).sink_state()),
            final(self).read_callback() == old(self).read_callback(),
            old(self).read_callback() is None ==> final(self).sink_state() == old(self).sink_state(),
    {
        match &self.read_cb {
            Some(cb) => cb.on_read(&mut self.sink),
            None => {},
        }
    }

    /// Everything written out on this stream so far.
    pub fn written(&self) -> (r: Vec<u8>)
        ensures
            r@ == self.sink_state().written,
    {
        self.sink.written()
    }

    /// The inbound bytes not yet consumed.
    pub fn read_bytes(&self) -> (r: Vec<u8>)
        ensures
            r@ == self.sink_state().read,
    {
        self.sink.read_bytes()
    }

    /// The buffers, for a scripted action to inspect or fill.
    pub fn sink_mut(&mut self) -> (r: &mut ByteSink)
        requires
            old(self).well_formed(),
        ensures
            r@ == old(self).sink_state(),
            r.wf(),
            final(self).sink_state() == final(r)@,
            final(self).well_formed() == final(r).wf(),
            final(self).read_callback() == old(self).read_callback(),
    {
        &mut self.sink
    }
}

/// Single slot: after `c1` and then `c2` are registered on a stream, its
/// slot holds `c2` alone, and firing it runs `c2` on the buffers the stream
/// had before either registration.
pub proof fn lemma_last_registration_wins<C: ReadCallback>(
    s0: ByteEventSteam<C>,
    s1: ByteEventSteam<C>,
    s2: ByteEventSteam<C>,
    c1: C,
    c2: C,
)
    requires
        s1.sink_state() == s0.sink_state(),
        s1.read_callback() == Some(c1),
        s2.sink_state() == s1.sink_state(),
        s2.read_callback() == Some(c2),
    ensures
        s2.read_callback() == Some(c2),
        fire(s2.read_callback(), s2.sink_state()) == c2.on_read_spec(s0.sink_state()),
{
}

} // verus!
