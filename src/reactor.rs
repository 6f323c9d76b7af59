use vstd::prelude::*;
use crate::sink::{ByteSink, SinkState};
use crate::stream::{fire, ByteEventSteam, EventStream, ReadCallback};

verus! {

/// What a scripted action tells the reactor once it has run.
#[derive(Clone, Copy, PartialEq, Eq, Debug, Structural)]
pub enum ActionOutcome {
    /// Fire the stream's callback and go on with the script.
    Continue,
    /// Fire the stream's callback, then end the replay.
    Stop,
    /// A check of the action failed: the replay is aborted at once.
    Failed,
}

/// One step of a script: a mutation of, or a check against, a stream's
/// buffers. Like a read callback, its effect is a function of the buffers
/// alone.
pub trait ScriptedAction {
    /// The buffers after the action, given the buffers before it.
    spec fn apply_spec(&self, s: SinkState) -> SinkState;

    /// What the action reports, given the buffers before it.
    spec fn outcome_spec(&self, s: SinkState) -> ActionOutcome;

    fn apply(&self, sink: &mut ByteSink) -> (r: ActionOutcome)
        requires
            old(sink).wf(),
        ensures
            final(sink).wf(),
            final(sink)@ == self.apply_spec(old(sink)@),
            r == self.outcome_spec(old(sink)@),
    ;
}

/// The common scripted actions.
#[derive(Debug)]
pub enum ScriptStep {
    /// Bytes arrive on the stream's inbound buffer.
    Deliver(Vec<u8>),
    /// The input ends: nothing arrives, and the replay stops after this step.
    EndOfInput,
    /// Checks that the inbound buffer holds exactly these bytes.
    ExpectRead(Vec<u8>),
    /// Checks that the outbound buffer holds exactly these bytes.
    ExpectWritten(Vec<u8>),
}

/// Whether two byte slices hold the same bytes.
pub fn bytes_equal(a: &[u8], b: &[u8]) -> (r: bool)
    ensures
        r == (a@ == b@),
{
    if a.len() != b.len() {
        return false;
    }
    let mut i: usize = 0;
    while i < a.len()
        invariant
            a@.len() == b@.len(),
            0 <= i <= a@.len(),
            forall|k: int| 0 <= k < i ==> a@[k] == b@[k],
        decreases a@.len() - i,
    {
        if a[i] != b[i] {
            return false;
        }
        i = i + 1;
    }
    assert(a@ =~= b@);
    true
}

impl ScriptedAction for ScriptStep {
    open spec fn apply_spec(&self, s: SinkState) -> SinkState {
        match self {
            ScriptStep::Deliver(bytes) => s.deliver(bytes@),
            _ => s,
        }
    }

    open spec fn outcome_spec(&self, s: SinkState) -> ActionOutcome {
        match self {
            ScriptStep::Deliver(_) => ActionOutcome::Continue,
            ScriptStep::EndOfInput => ActionOutcome::Stop,
            ScriptStep::ExpectRead(bytes) => if s.read == bytes@ {
                ActionOutcome::Continue
            } else {
                ActionOutcome::Failed
            },
            ScriptStep::ExpectWritten(bytes) => if s.written == bytes@ {
                ActionOutcome::Continue
            } else {
                ActionOutcome::Failed
            },
        }
    }

    fn apply(&self, sink: &mut ByteSink) -> (r: ActionOutcome) {
        match self {
            ScriptStep::Deliver(bytes) => {
                sink.deliver(bytes.as_slice());
                ActionOutcome::Continue
            },
            ScriptStep::EndOfInput => ActionOutcome::Stop,
            ScriptStep::ExpectRead(bytes) => {
                let data = sink.read_bytes();
                if bytes_equal(data.as_slice(), bytes.as_slice()) {
                    ActionOutcome::Continue
                } else {
                    ActionOutcome::Failed
                }
            },
            ScriptStep::ExpectWritten(bytes) => {
                let data = sink.written();
                if bytes_equal(data.as_slice(), bytes.as_slice()) {
                    ActionOutcome::Continue
                } else {
                    ActionOutcome::Failed
                }
            },
        }
    }
}

/// How a replay ended.
pub ghost enum Halt {
    /// Every scheduled action ran.
    Exhausted,
    /// An action asked to stop.
    Stopped,
    /// The action at this position of the script failed.
    Failed(int),
}

/// One scheduled action on a stream whose callback slot is `cb`: the action
/// runs, and unless it failed the callback fires after it.
pub open spec fn step<C: ReadCallback, A: ScriptedAction>(cb: Option<C>, s: SinkState, a: A) -> SinkState {
    if a.outcome_spec(s) == ActionOutcome::Failed {
        a.apply_spec(s)
    } else {
        fire(cb, a.apply_spec(s))
    }
}

/// The streams' buffers, and how the replay ended, when `script` is replayed
/// from position `i` on.
pub open spec fn replay_from<C: ReadCallback, A: ScriptedAction>(
    cbs: Seq<Option<C>>,
    states: Seq<SinkState>,
    script: Seq<(usize, A)>,
    i: int,
) -> (Seq<SinkState>, Halt)
    decreases script.len() - i,
{
    if 0 <= i < script.len() {
        let id = script[i].0 as int;
        let a = script[i].1;
        let next = states.update(id, step(cbs[id], states[id], a));
        match a.outcome_spec(states[id]) {
            ActionOutcome::Continue => replay_from(cbs, next, script, i + 1),
            ActionOutcome::Stop => (next, Halt::Stopped),
            ActionOutcome::Failed => (next, Halt::Failed(i)),
        }
    } else {
        (states, Halt::Exhausted)
    }
}

/// Every stream fired once.
pub open spec fn flush<C: ReadCallback>(cbs: Seq<Option<C>>, states: Seq<SinkState>) -> Seq<SinkState> {
    Seq::new(states.len(), |k: int| fire(cbs[k], states[k]))
}

/// A whole `play`: the script replayed in order, or, with no script, every
/// registered stream fired once.
pub open spec fn play_spec<C: ReadCallback, A: ScriptedAction>(
    cbs: Seq<Option<C>>,
    states: Seq<SinkState>,
    script: Seq<(usize, A)>,
) -> (Seq<SinkState>, Halt) {
    if script.len() == 0 {
        (flush(cbs, states), Halt::Exhausted)
    } else {
        replay_from(cbs, states, script, 0)
    }
}

/// Why the reactor refused a call or aborted a replay.
#[derive(Clone, Copy, PartialEq, Eq, Debug, Structural)]
pub enum ReactorError {
    /// An action was scheduled against a stream that is not registered.
    UnknownStream,
    /// The action at this position of the script failed.
    ActionFailed { index: usize },
}

/// A synchronous, scripted reactor: it owns a set of streams and an ordered
/// script of actions, each bound to one of them, and replays the script in
/// order.
pub struct DummyReactor<C, A> {
    streams: Vec<ByteEventSteam<C>>,
    actions: Vec<(usize, A)>,
}

impl<C: ReadCallback, A: ScriptedAction> DummyReactor<C, A> {
    /// The registered streams' callback slots, by stream id.
    pub closed spec fn callbacks(&self) -> Seq<Option<C>> {
        Seq::new(self.streams@.len(), |k: int| self.streams@[k].read_callback())
    }

    /// The registered streams' buffers, by stream id.
    pub closed spec fn states(&self) -> Seq<SinkState> {
        Seq::new(self.streams@.len(), |k: int| self.streams@[k].sink_state())
    }

    /// The scheduled actions, in order, with the id of their stream.
    pub closed spec fn script(&self) -> Seq<(usize, A)> {
        self.actions@
    }

    /// Every stream is well formed and every action targets a registered
    /// stream.
    pub closed spec fn wf(&self) -> bool {
        &&& forall|k: int| 0 <= k < self.streams@.len() ==> #[trigger] self.streams@[k].well_formed()
        &&& forall|j: int| 0 <= j < self.actions@.len() ==> (#[trigger] self.actions@[j]).0 < self.streams@.len()
    }

    pub fn new() -> (r: Self)
        ensures
            r.wf(),
            r.callbacks() == Seq::<Option<C>>::empty(),
            r.states() == Seq::<SinkState>::empty(),
            r.script() == Seq::<(usize, A)>::empty(),
    {
        let r = DummyReactor { streams: Vec::new(), actions: Vec::new() };
        assert(r.callbacks() =~= Seq::<Option<C>>::empty());
        assert(r.states() =~= Seq::<SinkState>::empty());
        r
    }

    /// Adds a stream; the result is its id.
    pub fn register(&mut self, stream: ByteEventSteam<C>) -> (r: usize)
        requires
            old(self).wf(),
            stream.well_formed(),
            old(self).states().len() < usize::MAX,
        ensures
            final(self).wf(),
            r == old(self).states().len(),
            final(self).states() == old(self).states().push(stream.sink_state()),
            final(self).callbacks() == old(self).callbacks().push(stream.read_callback()),
            final(self).script() == old(self).script(),
    {
        let id = self.streams.len();
        self.streams.push(stream);
        assert(self.states() =~= old(self).states().push(stream.sink_state()));
        assert(self.callbacks() =~= old(self).callbacks().push(stream.read_callback()));
        id
    }

    /// The number of registered streams.
    pub fn stream_count(&self) -> (r: usize)
        ensures
            r == self.states().len(),
    {
        self.streams.len()
    }

    /// The stream registered under `id`.
    pub fn stream(&self, id: usize) -> (r: &ByteEventSteam<C>)
        requires
            self.wf(),
            id < self.states().len(),
        ensures
            r.well_formed(),
            r.sink_state() == self.states()[id as int],
            r.read_callback() == self.callbacks()[id as int],
    {
        &self.streams[id]
    }

    /// Registers `f` as the read callback of stream `id`, replacing any
    /// callback it had.
    pub fn set_read(&mut self, id: usize, f: C)
        requires
            old(self).wf(),
            id < old(self).states().len(),
        ensures
            final(self).wf(),
            final(self).states() == old(self).states(),
            final(self).callbacks() == old(self).callbacks().update(id as int, Some(f)),
            final(self).script() == old(self).script(),
    {
        let ghost before = self.streams@;
        let st = &mut self.streams[id];
        st.set_read(f);
        proof {
            assert(self.streams@ == before.update(id as int, self.streams@[id as int]));
            assert(self.states() =~= old(self).states());
            assert(self.callbacks() =~= old(self).callbacks().update(id as int, Some(f)));
        }
    }

    /// Appends `action`, bound to stream `stream`, to the script; a stream
    /// that is not registered is refused.
    pub fn push_action(&mut self, stream: usize, action: A) -> (r: Result<(), ReactorError>)
        requires
            old(self).wf(),
        ensures
            final(self).wf(),
            final(self).states() == old(self).states(),
            final(self).callbacks() == old(self).callbacks(),
            stream < old(self).states().len() ==> r == Ok::<(), ReactorError>(()) && final(self).script()
                == old(self).script().push((stream, action)),
            stream >= old(self).states().len() ==> r == Err::<(), ReactorError>(ReactorError::UnknownStream)
                && final(self).script() == old(self).script(),
    {
        if stream >= self.streams.len() {
            return Err(ReactorError::UnknownStream);
        }
        self.actions.push((stream, action));
        assert forall|j: int| 0 <= j < self.actions@.len() implies (#[trigger] self.actions@[j]).0
            < self.streams@.len() by {
            if j < old(self).actions@.len() {
                assert(self.actions@[j] == old(self).actions@[j]);
            }
        }
        Ok(())
    }

    /// Runs the action at position `i` of the script on its stream, then
    /// fires that stream's callback unless the action failed.
    fn run_action(&mut self, i: usize) -> (r: ActionOutcome)
        requires
            old(self).wf(),
            i < old(self).script().len(),
        ensures
            final(self).wf(),
            final(self).callbacks() == old(self).callbacks(),
            final(self).script() == old(self).script(),
            ({
                let id = old(self).script()[i as int].0 as int;
                let a = old(self).script()[i as int].1;
                &&& final(self).states() == old(self).states().update(
                    id,
                    step(old(self).callbacks()[id], old(self).states()[id], a),
                )
                &&& r == a.outcome_spec(old(self).states()[id])
            }),
    {
        let id = self.actions[i].0;
        let st = &mut self.streams[id];
        let outcome = self.actions[i].1.apply(st.sink_mut());
        if outcome != ActionOutcome::Failed {
            st.trigger_read_cb();
        }
        proof {
            let ghost old_streams = old(self).streams@;
            assert(self.streams@ == old_streams.update(id as int, self.streams@[id as int]));
            assert(self.states() =~= old(self).states().update(
                id as int,
                step(old(self).callbacks()[id as int], old(self).states()[id as int], self.actions@[i as int].1),
            ));
            assert(self.callbacks() =~= old(self).callbacks());
        }
        outcome
    }

    /// Fires every registered stream's callback once, in registration order.
    fn flush_all(&mut self)
        requires
            old(self).wf(),
        ensures
            final(self).wf(),
            final(self).callbacks() == old(self).callbacks(),
            final(self).script() == old(self).script(),
            final(self).states() == flush(old(self).callbacks(), old(self).states()),
    {
        let ghost cbs = self.callbacks();
        let ghost states0 = self.states();
        let mut k: usize = 0;
        while k < self.streams.len()
            invariant
                self.wf(),
                self.callbacks() == cbs,
                self.script() == old(self).script(),
                self.streams@.len() == states0.len(),
                0 <= k <= states0.len(),
                self.states() == Seq::new(
                    states0.len(),
                    |j: int| if j < k { fire(cbs[j], states0[j]) } else { states0[j] },
                ),
            decreases states0.len() - k,
        {
            let ghost before = self.streams@;
            let ghost prev = self.states();
            let st = &mut self.streams[k];
            st.trigger_read_cb();
            proof {
                assert(self.streams@ == before.update(k as int, self.streams@[k as int]));
                assert(self.callbacks() =~= cbs);
                assert(self.states() =~= prev.update(k as int, fire(cbs[k as int], prev[k as int])));
            }
            k = k + 1;
            proof {
                assert(self.states() =~= Seq::new(
                    states0.len(),
                    |j: int| if j < k { fire(cbs[j], states0[j]) } else { states0[j] },
                ));
            }
        }
        proof {
            assert(self.states() =~= flush(cbs, states0));
        }
    }

    /// Replays the script and consumes it. Each action runs on its stream,
    /// then that stream's callback fires, in the order the actions were
    /// scheduled. An action that asks to stop ends the replay after its
    /// callback; one that fails aborts it before its callback, and the error
    /// gives its position. With no script, every registered stream's
    /// callback fires once, in registration order.
    pub fn play(&mut self) -> (r: Result<(), ReactorError>)
        requires
            old(self).wf(),
        ensures
            final(self).wf(),
            final(self).callbacks() == old(self).callbacks(),
            final(self).script() == Seq::<(usize, A)>::empty(),
            final(self).states().len() == old(self).states().len(),
            final(self).states() == play_spec(old(self).callbacks(), old(self).states(), old(self).script()).0,
            (match play_spec(old(self).callbacks(), old(self).states(), old(self).script()).1 {
                Halt::Failed(i) => r matches Err(ReactorError::ActionFailed { index }) && index == i,
                _ => r == Ok::<(), ReactorError>(()),
            }),
    {
        if self.actions.len() == 0 {
            self.flush_all();
            return Ok(());
        }
        let ghost cbs = self.callbacks();
        let ghost states0 = self.states();
        let ghost script = self.script();
        let mut i: usize = 0;
        while i < self.actions.len()
            invariant
                self.wf(),
                cbs == old(self).callbacks(),
                states0 == old(self).states(),
                script == old(self).script(),
                script.len() > 0,
                self.callbacks() == cbs,
                self.script() == script,
                0 <= i <= script.len(),
                replay_from(cbs, self.states(), script, i as int) == replay_from(cbs, states0, script, 0),
                self.states().len() == states0.len(),
            decreases script.len() - i,
        {
            let outcome = self.run_action(i);
            match outcome {
                ActionOutcome::Continue => {},
                ActionOutcome::Stop => {
                    self.clear_script();
                    return Ok(());
                },
                ActionOutcome::Failed => {
                    self.clear_script();
                    return Err(ReactorError::ActionFailed { index: i });
                },
            }
            i = i + 1;
        }
        self.clear_script();
        Ok(())
    }

    fn clear_script(&mut self)
        requires
            old(self).wf(),
        ensures
            final(self).wf(),
            final(self).callbacks() == old(self).callbacks(),
            final(self).states() == old(self).states(),
            final(self).script() == Seq::<(usize, A)>::empty(),
    {
        self.actions.clear();
    }
}

/// `h`, with a failure position moved on by `n`.
pub open spec fn shifted(h: Halt, n: int) -> Halt {
    match h {
        Halt::Failed(i) => Halt::Failed(i + n),
        other => other,
    }
}

/// Determinism: two replays of equal scripts on streams with equal buffers
/// and equal callbacks end with byte-identical buffers, and in the same way.
pub proof fn lemma_play_deterministic<C: ReadCallback, A: ScriptedAction>(
    r1: DummyReactor<C, A>,
    r2: DummyReactor<C, A>,
)
    requires
        r1.callbacks() == r2.callbacks(),
        r1.states() == r2.states(),
        r1.script() == r2.script(),
    ensures
        play_spec(r1.callbacks(), r1.states(), r1.script()) == play_spec(
            r2.callbacks(),
            r2.states(),
            r2.script(),
        ),
{
}

proof fn lemma_replay_prefix<C: ReadCallback, A: ScriptedAction>(
    cbs: Seq<Option<C>>,
    states: Seq<SinkState>,
    s1: Seq<(usize, A)>,
    s2: Seq<(usize, A)>,
    i: int,
)
    requires
        0 <= i <= s1.len(),
    ensures
        replay_from(cbs, states, s1 + s2, i) == (match replay_from(cbs, states, s1, i) {
            (mid, Halt::Exhausted) => replay_from(cbs, mid, s1 + s2, s1.len() as int),
            other => other,
        }),
    decreases s1.len() - i,
{
    if i < s1.len() {
        assert((s1 + s2)[i] == s1[i]);
        let id = s1[i].0 as int;
        let next = states.update(id, step(cbs[id], states[id], s1[i].1));
        lemma_replay_prefix(cbs, next, s1, s2, i + 1);
    }
}

proof fn lemma_replay_suffix<C: ReadCallback, A: ScriptedAction>(
    cbs: Seq<Option<C>>,
    states: Seq<SinkState>,
    s1: Seq<(usize, A)>,
    s2: Seq<(usize, A)>,
    k: int,
)
    requires
        0 <= k <= s2.len(),
    ensures
        replay_from(cbs, states, s1 + s2, s1.len() + k) == ({
            let (fin, h) = replay_from(cbs, states, s2, k);
            (fin, shifted(h, s1.len() as int))
        }),
    decreases s2.len() - k,
{
    if k < s2.len() {
        assert((s1 + s2)[s1.len() + k] == s2[k]);
        let id = s2[k].0 as int;
        let next = states.update(id, step(cbs[id], states[id], s2[k].1));
        lemma_replay_suffix(cbs, next, s1, s2, k + 1);
        assert(s1.len() + k + 1 == s1.len() + (k + 1));
    }
}

/// Ordering: replaying `s1` then `s2` is replaying all of `s1`, every action
/// followed by its callback, and only then, unless `s1` stopped or failed,
/// replaying `s2` on the buffers that `s1` left; a failure in `s2` is
/// reported at its position in the whole script.
pub proof fn lemma_replay_in_order<C: ReadCallback, A: ScriptedAction>(
    cbs: Seq<Option<C>>,
    states: Seq<SinkState>,
    s1: Seq<(usize, A)>,
    s2: Seq<(usize, A)>,
)
    ensures
        replay_from(cbs, states, s1 + s2, 0) == (match replay_from(cbs, states, s1, 0) {
            (mid, Halt::Exhausted) => {
                let (fin, h) = replay_from(cbs, mid, s2, 0);
                (fin, shifted(h, s1.len() as int))
            },
            other => other,
        }),
{
    lemma_replay_prefix(cbs, states, s1, s2, 0);
    let (mid, h) = replay_from(cbs, states, s1, 0);
    lemma_replay_suffix(cbs, mid, s1, s2, 0);
}

} // verus!
