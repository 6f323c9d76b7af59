//! Event-driven duplex byte streams and a deterministic, scripted reactor
//! that drives them without real I/O.

pub mod buffer;
pub mod protocol;
pub mod reactor;
pub mod sink;
pub mod stream;

pub use protocol::{Echo, FixedReply, PingProtocol};
pub use reactor::{ActionOutcome, DummyReactor, ReactorError, ScriptStep, ScriptedAction};
pub use sink::ByteSink;
pub use stream::{ByteEventSteam, EventStream, ReadCallback};
