use event_stream::{
    ByteEventSteam, ByteSink, DummyReactor, Echo, EventStream, FixedReply, PingProtocol,
    ReactorError, ScriptStep,
};

fn text(bytes: Vec<u8>) -> String {
    String::from_utf8(bytes).unwrap()
}

fn deliver(s: &str) -> ScriptStep {
    ScriptStep::Deliver(s.as_bytes().to_vec())
}

fn ping_reactor() -> (DummyReactor<PingProtocol, ScriptStep>, usize) {
    let mut bes: ByteEventSteam<PingProtocol> = ByteEventSteam::new();
    let _ping = PingProtocol::new(&mut bes);
    let mut dr = DummyReactor::new();
    let id = dr.register(bes);
    (dr, id)
}

fn echo_reactor(n: usize) -> DummyReactor<Echo, ScriptStep> {
    let mut dr = DummyReactor::new();
    for _ in 0..n {
        let mut s = ByteEventSteam::new();
        s.set_read(Echo {});
        dr.register(s);
    }
    dr
}

#[test]
fn simple_echo() {
    let (mut dr, id) = ping_reactor();
    dr.push_action(id, ScriptStep::Deliver(String::from("ping?").into_bytes())).unwrap();
    dr.push_action(id, ScriptStep::Deliver(String::from("ping?").into_bytes())).unwrap();
    dr.play().unwrap();
    let response = text(dr.stream(id).written());
    assert_eq!(response, "pong!pong!");
}

#[test]
fn single_ping_gets_one_pong() {
    let (mut dr, id) = ping_reactor();
    dr.push_action(id, deliver("ping?")).unwrap();
    assert_eq!(dr.play(), Ok(()));
    assert_eq!(text(dr.stream(id).written()), "pong!");
    assert!(dr.stream(id).read_bytes().is_empty());
}

#[test]
fn ping_request_is_seen_before_it_is_drained() {
    let (mut dr, id) = ping_reactor();
    dr.push_action(id, deliver("ping?")).unwrap();
    dr.push_action(id, ScriptStep::ExpectRead(Vec::new())).unwrap();
    dr.push_action(id, ScriptStep::ExpectWritten(b"pong!pong!".to_vec())).unwrap();
    assert_eq!(dr.play(), Ok(()));
}

#[test]
fn flush_mode_fires_each_stream_once() {
    let mut s = ByteEventSteam::new();
    s.set_read(FixedReply { reply: b"flushed".to_vec() });
    let mut dr: DummyReactor<FixedReply, ScriptStep> = DummyReactor::new();
    let id = dr.register(s);
    assert_eq!(dr.play(), Ok(()));
    assert_eq!(text(dr.stream(id).written()), "flushed");
}

#[test]
fn flush_mode_in_registration_order_on_every_stream() {
    let mut dr = echo_reactor(0);
    let mut a: ByteEventSteam<Echo> = ByteEventSteam::new();
    a.set_read(Echo {});
    let b: ByteEventSteam<Echo> = ByteEventSteam::new();
    let ia = dr.register(a);
    let ib = dr.register(b);
    assert_eq!((ia, ib), (0, 1));
    assert_eq!(dr.stream_count(), 2);
    assert_eq!(dr.play(), Ok(()));
    assert!(dr.stream(ia).written().is_empty());
    assert!(dr.stream(ib).written().is_empty());
}

#[test]
fn failed_check_halts_replay() {
    let mut dr = echo_reactor(1);
    dr.push_action(0, deliver("a")).unwrap();
    dr.push_action(0, ScriptStep::ExpectRead(b"zzz".to_vec())).unwrap();
    dr.push_action(0, deliver("b")).unwrap();
    assert_eq!(dr.play(), Err(ReactorError::ActionFailed { index: 1 }));
    assert_eq!(text(dr.stream(0).written()), "a");
    assert!(dr.stream(0).read_bytes().is_empty());
}

#[test]
fn failed_written_check_reports_its_position() {
    let mut dr = echo_reactor(1);
    dr.push_action(0, ScriptStep::ExpectWritten(b"x".to_vec())).unwrap();
    assert_eq!(dr.play(), Err(ReactorError::ActionFailed { index: 0 }));
    assert!(dr.stream(0).written().is_empty());
}

#[test]
fn end_of_input_stops_after_its_callback() {
    let mut dr: DummyReactor<FixedReply, ScriptStep> = DummyReactor::new();
    let mut s = ByteEventSteam::new();
    s.set_read(FixedReply { reply: b"!".to_vec() });
    let id = dr.register(s);
    dr.push_action(id, deliver("a")).unwrap();
    dr.push_action(id, ScriptStep::EndOfInput).unwrap();
    dr.push_action(id, deliver("b")).unwrap();
    assert_eq!(dr.play(), Ok(()));
    assert_eq!(text(dr.stream(id).written()), "!!");
    assert!(dr.stream(id).read_bytes().is_empty());
}

#[test]
fn script_is_consumed_by_play() {
    let mut dr = echo_reactor(1);
    dr.push_action(0, deliver("abc")).unwrap();
    assert_eq!(dr.play(), Ok(()));
    assert_eq!(dr.play(), Ok(()));
    assert_eq!(text(dr.stream(0).written()), "abc");
}

#[test]
fn unknown_stream_is_refused() {
    let mut dr = echo_reactor(1);
    assert_eq!(dr.push_action(1, deliver("x")), Err(ReactorError::UnknownStream));
    assert_eq!(dr.push_action(0, deliver("x")), Ok(()));
}

#[test]
fn replays_are_deterministic() {
    let build = || {
        let mut dr = echo_reactor(2);
        dr.push_action(0, deliver("he")).unwrap();
        dr.push_action(1, deliver("wor")).unwrap();
        dr.push_action(0, deliver("llo")).unwrap();
        dr.push_action(1, deliver("ld")).unwrap();
        dr
    };
    let mut d1 = build();
    let mut d2 = build();
    assert_eq!(d1.play(), d2.play());
    for id in 0..2 {
        assert_eq!(d1.stream(id).written(), d2.stream(id).written());
    }
    assert_eq!(text(d1.stream(0).written()), "hello");
    assert_eq!(text(d1.stream(1).written()), "world");
}

#[test]
fn callbacks_fire_in_script_order() {
    let mut dr = echo_reactor(1);
    dr.push_action(0, deliver("a")).unwrap();
    dr.push_action(0, deliver("b")).unwrap();
    dr.push_action(0, deliver("c")).unwrap();
    dr.play().unwrap();
    assert_eq!(text(dr.stream(0).written()), "abc");
}

#[test]
fn each_callback_fires_before_the_next_action() {
    let mut dr = echo_reactor(2);
    dr.push_action(0, deliver("a")).unwrap();
    dr.push_action(1, ScriptStep::ExpectWritten(Vec::new())).unwrap();
    dr.push_action(0, ScriptStep::ExpectWritten(b"a".to_vec())).unwrap();
    dr.push_action(1, deliver("b")).unwrap();
    dr.push_action(0, ScriptStep::ExpectRead(Vec::new())).unwrap();
    assert_eq!(dr.play(), Ok(()));
    assert_eq!(text(dr.stream(1).written()), "b");
}

#[test]
fn last_registration_wins() {
    let mut s = ByteEventSteam::new();
    s.set_read(FixedReply { reply: b"one".to_vec() });
    s.set_read(FixedReply { reply: b"two".to_vec() });
    s.trigger_read_cb();
    assert_eq!(text(s.written()), "two");
    s.trigger_read_cb();
    assert_eq!(text(s.written()), "twotwo");
}

#[test]
fn firing_without_callback_is_a_no_op() {
    let mut s: ByteEventSteam<Echo> = ByteEventSteam::new();
    s.push_write(b"out");
    s.trigger_read_cb();
    assert_eq!(text(s.written()), "out");
    let mut dr: DummyReactor<Echo, ScriptStep> = DummyReactor::new();
    let id = dr.register(s);
    dr.push_action(id, deliver("in")).unwrap();
    assert_eq!(dr.play(), Ok(()));
    assert_eq!(text(dr.stream(id).read_bytes()), "in");
    assert_eq!(text(dr.stream(id).written()), "out");
}

#[test]
fn delivered_bytes_drain_back_exactly() {
    let mut sink = ByteSink::new();
    sink.deliver(&[0, 255, 7]);
    assert_eq!(sink.read_bytes(), vec![0, 255, 7]);
    assert_eq!(sink.drain_read(), vec![0, 255, 7]);
    assert!(sink.drain_read().is_empty());
    assert!(sink.written().is_empty());
}

#[test]
fn echo_round_trips_through_the_reactor() {
    let mut dr = echo_reactor(1);
    dr.push_action(0, ScriptStep::Deliver(vec![1, 2, 3])).unwrap();
    dr.play().unwrap();
    assert_eq!(dr.stream(0).written(), vec![1, 2, 3]);
    assert!(dr.stream(0).read_bytes().is_empty());
}

#[test]
fn writes_append_in_order() {
    let mut sink = ByteSink::new();
    sink.push_write(b"ab");
    sink.push_write(b"");
    sink.push_write(b"cd");
    assert_eq!(text(sink.written()), "abcd");
    assert!(sink.read_bytes().is_empty());
    sink.deliver(b"xy");
    sink.deliver(b"z");
    assert_eq!(text(sink.read_bytes()), "xyz");
    assert_eq!(text(sink.written()), "abcd");
}

#[test]
fn drain_after_drain_then_new_arrival() {
    let mut sink = ByteSink::new();
    sink.deliver(b"one");
    assert_eq!(text(sink.drain_read()), "one");
    sink.deliver(b"two");
    assert_eq!(text(sink.drain_read()), "two");
}

#[test]
fn ping_protocol_installs_itself() {
    let mut bes: ByteEventSteam<PingProtocol> = ByteEventSteam::new();
    bes.push_write(b">");
    let _ping = PingProtocol::new(&mut bes);
    bes.trigger_read_cb();
    assert_eq!(text(bes.written()), ">pong!");
}

#[test]
fn ping_on_empty_input_still_answers() {
    let (mut dr, id) = ping_reactor();
    assert_eq!(dr.play(), Ok(()));
    assert_eq!(text(dr.stream(id).written()), "pong!");
}

#[test]
fn replacing_a_registered_callback() {
    let mut dr: DummyReactor<FixedReply, ScriptStep> = DummyReactor::new();
    let mut s = ByteEventSteam::new();
    s.set_read(FixedReply { reply: b"old".to_vec() });
    let id = dr.register(s);
    dr.set_read(id, FixedReply { reply: b"new".to_vec() });
    dr.push_action(id, deliver("x")).unwrap();
    assert_eq!(dr.play(), Ok(()));
    assert_eq!(text(dr.stream(id).written()), "new");
}
