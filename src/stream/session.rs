use vstd::prelude::*;

use crate::stream::channel_sink::SinkEvent;
use crate::stream::{is_terminal, ErrorView, EventView, StreamError, StreamEvent};

verus! {

/// How often, and after how long, a failed load is tried again.
#[derive(Clone, Copy)]
pub struct RetryPolicy {
    pub max_attempts: usize,
    pub base_delay_ms: u64,
    pub max_delay_ms: u64,
}

pub open spec fn pow2(k: nat) -> nat
    decreases k,
{
    if k == 0 {
        1
    } else {
        2 * pow2((k - 1) as nat)
    }
}

/// The wait before the retry that follows `attempt` earlier retries:
/// `base * 2^attempt`, capped at the maximum delay.
pub open spec fn backoff_ms(p: RetryPolicy, attempt: nat) -> nat {
    let d = p.base_delay_ms * pow2(attempt);
    if d <= p.max_delay_ms {
        d as nat
    } else {
        p.max_delay_ms as nat
    }
}

proof fn lemma_pow2_positive(k: nat)
    ensures
        pow2(k) >= 1,
    decreases k,
{
    if k > 0 {
        lemma_pow2_positive((k - 1) as nat);
    }
}

proof fn lemma_backoff_grows(b: nat, k: nat, cap: nat)
    requires
        b * pow2(k) > cap,
    ensures
        b * pow2(k + 1) > cap,
{
    assert(b * pow2(k + 1) == 2 * (b * pow2(k))) by (nonlinear_arith)
        requires
            pow2(k + 1) == 2 * pow2(k),
    ;
}

proof fn lemma_backoff_stays_capped(b: nat, k: nat, j: nat, cap: nat)
    requires
        b * pow2(k) > cap,
        k <= j,
    ensures
        b * pow2(j) > cap,
    decreases j - k,
{
    if k < j {
        lemma_backoff_grows(b, k, cap);
        lemma_backoff_stays_capped(b, k + 1, j, cap);
    }
}

impl RetryPolicy {
    /// Three retries, ten seconds doubling each time, at most thirty.
    pub fn standard() -> (r: RetryPolicy)
        ensures
            r.max_attempts == 3,
            r.base_delay_ms == 10000,
            r.max_delay_ms == 30000,
    {
        RetryPolicy { max_attempts: 3, base_delay_ms: 10000, max_delay_ms: 30000 }
    }

    /// The wait in milliseconds before the next try, after `attempt` retries.
    pub fn next_backoff(&self, attempt: usize) -> (r: u64)
        ensures
            r == backoff_ms(*self, attempt as nat),
    {
        let cap = self.max_delay_ms;
        let mut d: u64 = self.base_delay_ms;
        assert(pow2(0) == 1);
        if d > cap {
            proof {
                lemma_pow2_positive(attempt as nat);
                lemma_backoff_stays_capped(self.base_delay_ms as nat, 0, attempt as nat, cap as nat);
            }
            return cap;
        }
        let mut i: usize = 0;
        while i < attempt
            invariant
                i <= attempt,
                d == self.base_delay_ms * pow2(i as nat),
                d <= cap,
                cap == self.max_delay_ms,
            decreases attempt - i,
        {
            if d > cap / 2 {
                proof {
                    assert(self.base_delay_ms * pow2((i + 1) as nat) == 2 * d) by (nonlinear_arith)
                        requires
                            pow2((i + 1) as nat) == 2 * pow2(i as nat),
                            d == self.base_delay_ms * pow2(i as nat),
                    ;
                    lemma_backoff_stays_capped(
                        self.base_delay_ms as nat,
                        (i + 1) as nat,
                        attempt as nat,
                        cap as nat,
                    );
                }
                return cap;
            }
            proof {
                assert(self.base_delay_ms * pow2((i + 1) as nat) == 2 * d) by (nonlinear_arith)
                    requires
                        pow2((i + 1) as nat) == 2 * pow2(i as nat),
                        d == self.base_delay_ms * pow2(i as nat),
                ;
            }
            d = d * 2;
            i = i + 1;
        }
        d
    }
}

/// What the player reports about a load.
#[derive(Debug, Clone, Copy, PartialEq, Eq, Structural)]
pub enum PlayerSignal {
    Playing,
    TrackChanged,
    EndOfTrack,
    Unavailable,
    Other,
}

/// A signal that the load succeeded.
pub open spec fn is_ready(s: PlayerSignal) -> bool {
    s is Playing || s is TrackChanged || s is EndOfTrack
}

/// What happens to a streaming session.
pub enum SessionInput {
    Player(PlayerSignal),
    BackoffElapsed,
    Sink(SinkEvent),
    SinkClosed,
}

/// The mathematical value of a session input.
pub enum InputView {
    Player(PlayerSignal),
    BackoffElapsed,
    Sink(EventView),
    SinkClosed,
}

impl View for SessionInput {
    type V = InputView;

    open spec fn view(&self) -> InputView {
        match self {
            SessionInput::Player(s) => InputView::Player(*s),
            SessionInput::BackoffElapsed => InputView::BackoffElapsed,
            SessionInput::Sink(SinkEvent::Write { bytes, total, content }) => InputView::Sink(
                EventView::Write { bytes: *bytes, total: *total, content: content@ },
            ),
            SessionInput::Sink(SinkEvent::Finished) => InputView::Sink(EventView::Finished),
            SessionInput::SinkClosed => InputView::SinkClosed,
        }
    }
}

/// What the session asks of the player that drives it.
#[derive(Debug, Clone, Copy, PartialEq, Eq, Structural)]
pub enum Command {
    Idle,
    Load,
    Wait { delay_ms: u64 },
    Stop,
}

#[derive(Debug, Clone, Copy, PartialEq, Eq, Structural)]
pub enum Phase {
    Loading,
    Backoff,
    Streaming,
    Done,
}

/// The mathematical state of a session.
pub struct SessionView {
    pub phase: Phase,
    pub retries: nat,
    pub pending: Seq<EventView>,
    pub finished_pending: bool,
}

/// The result of one step: the next state, the events emitted, the command.
pub struct StepView {
    pub next: SessionView,
    pub events: Seq<EventView>,
    pub command: Command,
}

pub open spec fn initial_session() -> SessionView {
    SessionView { phase: Phase::Loading, retries: 0, pending: seq![], finished_pending: false }
}

pub open spec fn done_with(s: SessionView, events: Seq<EventView>) -> StepView {
    StepView {
        next: SessionView { phase: Phase::Done, retries: s.retries, pending: seq![], finished_pending: false },
        events,
        command: Command::Stop,
    }
}

pub open spec fn unchanged(s: SessionView) -> StepView {
    StepView { next: s, events: seq![], command: Command::Idle }
}

/// A failed load: retry after the backoff while retries are left, else give up.
pub open spec fn failed_attempt(p: RetryPolicy, track: Seq<char>, s: SessionView) -> StepView {
    if s.retries < p.max_attempts {
        StepView {
            next: SessionView {
                phase: Phase::Backoff,
                retries: s.retries + 1,
                pending: seq![],
                finished_pending: false,
            },
            events: seq![EventView::Retry { attempt: (s.retries + 1) as usize, max_attempts: p.max_attempts }],
            command: Command::Wait { delay_ms: backoff_ms(p, s.retries) as u64 },
        }
    } else {
        done_with(s, seq![EventView::Error(ErrorView::LoadError(track))])
    }
}

/// One step of a streaming session.
pub open spec fn session_step(p: RetryPolicy, track: Seq<char>, s: SessionView, i: InputView) -> StepView {
    match s.phase {
        Phase::Done => unchanged(s),
        Phase::Loading => match i {
            InputView::Player(sig) => if is_ready(sig) {
                if s.finished_pending {
                    done_with(s, s.pending.push(EventView::Finished))
                } else {
                    StepView {
                        next: SessionView { phase: Phase::Streaming, pending: seq![], ..s },
                        events: s.pending,
                        command: Command::Idle,
                    }
                }
            } else if sig is Unavailable {
                failed_attempt(p, track, s)
            } else {
                unchanged(s)
            },
            InputView::Sink(e) => if e is Write {
                StepView {
                    next: SessionView { pending: s.pending.push(e), ..s },
                    events: seq![],
                    command: Command::Idle,
                }
            } else {
                StepView {
                    next: SessionView { finished_pending: true, ..s },
                    events: seq![],
                    command: Command::Idle,
                }
            },
            InputView::SinkClosed => done_with(s, seq![EventView::Error(ErrorView::Unknown)]),
            InputView::BackoffElapsed => unchanged(s),
        },
        Phase::Backoff => match i {
            InputView::BackoffElapsed => StepView {
                next: SessionView { phase: Phase::Loading, ..s },
                events: seq![],
                command: Command::Load,
            },
            InputView::SinkClosed => done_with(s, seq![EventView::Error(ErrorView::Unknown)]),
            _ => unchanged(s),
        },
        Phase::Streaming => match i {
            InputView::Sink(e) => if e is Write {
                StepView { next: s, events: seq![e], command: Command::Idle }
            } else {
                done_with(s, seq![EventView::Finished])
            },
            InputView::SinkClosed => done_with(s, seq![EventView::Error(ErrorView::Unknown)]),
            _ => unchanged(s),
        },
    }
}

/// The state reached and the events emitted after a sequence of inputs.
pub open spec fn session_run(p: RetryPolicy, track: Seq<char>, inputs: Seq<InputView>) -> (SessionView, Seq<EventView>)
    decreases inputs.len(),
{
    if inputs.len() == 0 {
        (initial_session(), seq![])
    } else {
        let (s, out) = session_run(p, track, inputs.drop_last());
        let st = session_step(p, track, s, inputs.last());
        (st.next, out + st.events)
    }
}

/// The attempt numbers of the `Retry` events, in order.
pub open spec fn retry_attempts(out: Seq<EventView>) -> Seq<nat>
    decreases out.len(),
{
    if out.len() == 0 {
        seq![]
    } else if out.last() is Retry {
        retry_attempts(out.drop_last()).push(out.last()->Retry_attempt as nat)
    } else {
        retry_attempts(out.drop_last())
    }
}

/// Whether the events hold a load error.
pub open spec fn has_load_error(out: Seq<EventView>) -> bool {
    exists|i: int| 0 <= i < out.len() && #[trigger] out[i] is Error && out[i]->Error_0 is LoadError
}

proof fn lemma_retry_attempts_concat(a: Seq<EventView>, b: Seq<EventView>)
    ensures
        retry_attempts(a + b) == retry_attempts(a) + retry_attempts(b),
    decreases b.len(),
{
    if b.len() == 0 {
        assert(a + b =~= a);
        assert(retry_attempts(a) + retry_attempts(b) =~= retry_attempts(a));
    } else {
        lemma_retry_attempts_concat(a, b.drop_last());
        assert((a + b).drop_last() =~= a + b.drop_last());
        assert(retry_attempts(a) + retry_attempts(b.drop_last()).push(b.last()->Retry_attempt as nat)
            =~= (retry_attempts(a) + retry_attempts(b.drop_last())).push(b.last()->Retry_attempt as nat));
    }
}

proof fn lemma_writes_have_no_retries(s: Seq<EventView>)
    requires
        forall|i: int| 0 <= i < s.len() ==> (#[trigger] s[i]) is Write,
    ensures
        retry_attempts(s) == Seq::<nat>::empty(),
    decreases s.len(),
{
    if s.len() > 0 {
        lemma_writes_have_no_retries(s.drop_last());
    }
}

/// What holds of every reachable state and the events emitted to reach it.
pub open spec fn session_invariant(p: RetryPolicy, s: SessionView, out: Seq<EventView>) -> bool {
    &&& s.retries <= p.max_attempts
    &&& retry_attempts(out).len() == s.retries
    &&& forall|k: int| 0 <= k < retry_attempts(out).len() ==> #[trigger] retry_attempts(out)[k] == k + 1
    &&& has_load_error(out) ==> s.retries == p.max_attempts
    &&& forall|i: int| 0 <= i < s.pending.len() ==> (#[trigger] s.pending[i]) is Write
    &&& (s.phase is Done) == (exists|i: int| 0 <= i < out.len() && is_terminal(#[trigger] out[i]))
    &&& forall|i: int| 0 <= i < out.len() && is_terminal(#[trigger] out[i]) ==> i == out.len() - 1
    &&& forall|i: int| 0 <= i < out.len() && (#[trigger] out[i]) is Retry ==> out[i]->Retry_max_attempts
        == p.max_attempts
}

proof fn lemma_retries_of_step_events(e: Seq<EventView>)
    requires
        forall|i: int| 0 <= i < e.len() - 1 ==> (#[trigger] e[i]) is Write,
    ensures
        retry_attempts(e) == (if e.len() > 0 && e.last() is Retry {
            seq![e.last()->Retry_attempt as nat]
        } else {
            Seq::<nat>::empty()
        }),
{
    if e.len() > 0 {
        lemma_writes_have_no_retries(e.drop_last());
        assert(Seq::<nat>::empty().push(e.last()->Retry_attempt as nat) =~= seq![e.last()->Retry_attempt as nat]);
    }
}

proof fn lemma_step_keeps_invariant(p: RetryPolicy, track: Seq<char>, s: SessionView, out: Seq<EventView>, i: InputView)
    requires
        session_invariant(p, s, out),
    ensures
        session_invariant(p, session_step(p, track, s, i).next, out + session_step(p, track, s, i).events),
{
    let st = session_step(p, track, s, i);
    let ev = st.events;
    let out2 = out + ev;
    lemma_retry_attempts_concat(out, ev);
    assert forall|j: int| 0 <= j < ev.len() implies (#[trigger] out2[out.len() + j]) == ev[j] by {}
    assert forall|j: int| 0 <= j < out.len() implies (#[trigger] out2[j]) == out[j] by {}
    if s.phase is Done {
        assert(ev =~= seq![]);
        assert(out2 =~= out);
    } else {
        assert(forall|j: int| 0 <= j < out.len() ==> !is_terminal(#[trigger] out[j]));
        assert(forall|j: int| 0 <= j < ev.len() - 1 ==> (#[trigger] ev[j]) is Write) by {
            if ev.len() > 1 {
                assert forall|j: int| 0 <= j < ev.len() - 1 implies (#[trigger] ev[j]) is Write by {
                    assert(ev[j] == s.pending[j]);
                }
            }
        }
        lemma_retries_of_step_events(ev);
        let ra = retry_attempts(out);
        let rb = retry_attempts(ev);
        assert(retry_attempts(out2) == ra + rb);
        if ev.len() > 0 && ev.last() is Retry {
            assert(st.next.retries == s.retries + 1);
            assert(rb =~= seq![(s.retries + 1) as nat]);
        } else {
            assert(st.next.retries == s.retries);
            assert(ra + rb =~= ra);
        }
        assert forall|j: int| 0 <= j < st.next.pending.len() implies (#[trigger] st.next.pending[j]) is Write by {
            if st.next.pending.len() > 0 && st.next.pending.len() == s.pending.len() + 1 {
                if j < s.pending.len() {
                    assert(st.next.pending[j] == s.pending[j]);
                }
            }
        }
        assert(has_load_error(out2) ==> st.next.retries == p.max_attempts) by {
            if has_load_error(out2) {
                let w = choose|w: int| 0 <= w < out2.len() && #[trigger] out2[w] is Error && out2[w]->Error_0 is LoadError;
                if w < out.len() {
                    assert(out2[w] == out[w]);
                    assert(is_terminal(out[w]));
                } else {
                    assert(out2[w] == ev[w - out.len()]);
                }
            }
        }
        assert forall|j: int| 0 <= j < out2.len() && (#[trigger] out2[j]) is Retry implies out2[j]->Retry_max_attempts
            == p.max_attempts by {
            if j < out.len() {
                assert(out2[j] == out[j]);
            } else {
                assert(out2[j] == ev[j - out.len()]);
                if j - out.len() < ev.len() - 1 {
                    assert(ev[j - out.len()] is Write);
                }
            }
        }
        assert forall|j: int| 0 <= j < out2.len() && is_terminal(#[trigger] out2[j]) implies j == out2.len() - 1 by {
            if j < out.len() {
                assert(out2[j] == out[j]);
            } else {
                assert(out2[j] == ev[j - out.len()]);
            }
        }
        if st.next.phase is Done {
            assert(is_terminal(out2[out2.len() - 1]));
        } else {
            assert forall|j: int| 0 <= j < out2.len() implies !is_terminal(#[trigger] out2[j]) by {
                if j >= out.len() {
                    assert(out2[j] == ev[j - out.len()]);
                } else {
                    assert(out2[j] == out[j]);
                }
            }
        }
    }
}

proof fn lemma_run_invariant(p: RetryPolicy, track: Seq<char>, inputs: Seq<InputView>)
    ensures
        session_invariant(p, session_run(p, track, inputs).0, session_run(p, track, inputs).1),
    decreases inputs.len(),
{
    if inputs.len() == 0 {
        assert(retry_attempts(seq![]) =~= seq![]);
    } else {
        lemma_run_invariant(p, track, inputs.drop_last());
        let (s, out) = session_run(p, track, inputs.drop_last());
        lemma_step_keeps_invariant(p, track, s, out, inputs.last());
    }
}

/// Whatever happens during a session, it emits at most `max_attempts`
/// `Retry` events, numbered 1, 2, ... in order, each carrying
/// `max_attempts`, and when it gives up with a load error the last of them
/// carried `attempt == max_attempts`.
pub proof fn lemma_retries_bounded(p: RetryPolicy, track: Seq<char>, inputs: Seq<InputView>)
    ensures
        ({
            let out = session_run(p, track, inputs).1;
            &&& retry_attempts(out).len() <= p.max_attempts
            &&& forall|k: int| 0 <= k < retry_attempts(out).len() ==> #[trigger] retry_attempts(out)[k] == k + 1
            &&& has_load_error(out) ==> retry_attempts(out).len() == p.max_attempts
            &&& forall|i: int| 0 <= i < out.len() && (#[trigger] out[i]) is Retry ==> out[i]->Retry_max_attempts
                == p.max_attempts
        }),
{
    lemma_run_invariant(p, track, inputs);
}

/// A session emits at most one terminal event, and nothing after it.
pub proof fn lemma_single_terminal(p: RetryPolicy, track: Seq<char>, inputs: Seq<InputView>)
    ensures
        ({
            let out = session_run(p, track, inputs).1;
            forall|i: int| 0 <= i < out.len() && is_terminal(#[trigger] out[i]) ==> i == out.len() - 1
        }),
{
    lemma_run_invariant(p, track, inputs);
}

} // verus!

verus! {

/// One playback attempt of one track, with bounded retries: it turns what
/// the player and the sample sink report into the events its caller sees,
/// and tells the driver what to do next.
pub struct StreamSession {
    policy: RetryPolicy,
    track: String,
    phase: Phase,
    retries: usize,
    pending: Vec<StreamEvent>,
    finished_pending: bool,
}

/// What one step of a session hands back: events to relay, then a command.
pub struct SessionStep {
    pub events: Vec<StreamEvent>,
    pub command: Command,
}

impl View for StreamSession {
    type V = SessionView;

    closed spec fn view(&self) -> SessionView {
        SessionView {
            phase: self.phase,
            retries: self.retries as nat,
            pending: crate::stream::event_views(self.pending@),
            finished_pending: self.finished_pending,
        }
    }
}

impl StreamSession {
    pub closed spec fn policy(&self) -> RetryPolicy {
        self.policy
    }

    pub closed spec fn track(&self) -> Seq<char> {
        self.track@
    }

    /// A session for the named track; the driver loads the track first.
    pub fn start(policy: RetryPolicy, track: String) -> (r: (StreamSession, Command))
        ensures
            r.0@ == initial_session(),
            r.0.policy() == policy,
            r.0.track() == track@,
            r.1 == Command::Load,
    {
        let s = StreamSession {
            policy,
            track,
            phase: Phase::Loading,
            retries: 0,
            pending: Vec::new(),
            finished_pending: false,
        };
        proof {
            assert(crate::stream::event_views(s.pending@) =~= seq![]);
        }
        (s, Command::Load)
    }

    /// Whether the session has emitted its terminal event.
    pub fn is_done(&self) -> (r: bool)
        ensures
            r == (self@.phase is Done),
    {
        self.phase == Phase::Done
    }

    fn take_pending(&mut self) -> (r: Vec<StreamEvent>)
        ensures
            r@ == old(self).pending@,
            final(self).pending@ == Seq::<StreamEvent>::empty(),
            final(self).phase == old(self).phase,
            final(self).retries == old(self).retries,
            final(self).finished_pending == old(self).finished_pending,
            final(self).policy == old(self).policy,
            final(self).track == old(self).track,
    {
        let mut taken: Vec<StreamEvent> = Vec::new();
        std::mem::swap(&mut taken, &mut self.pending);
        taken
    }

    fn finish(&mut self, events: Vec<StreamEvent>) -> (r: SessionStep)
        ensures
            final(self)@ == done_with(old(self)@, crate::stream::event_views(events@)).next,
            r.events@ == events@,
            r.command == Command::Stop,
            final(self).policy == old(self).policy,
            final(self).track == old(self).track,
    {
        self.phase = Phase::Done;
        self.pending = Vec::new();
        self.finished_pending = false;
        proof {
            assert(crate::stream::event_views(self.pending@) =~= seq![]);
        }
        SessionStep { events, command: Command::Stop }
    }

    fn single(e: StreamEvent) -> (r: Vec<StreamEvent>)
        ensures
            crate::stream::event_views(r@) == seq![e@],
    {
        let mut v: Vec<StreamEvent> = Vec::new();
        v.push(e);
        proof {
            assert(crate::stream::event_views(v@) =~= seq![e@]);
        }
        v
    }

    fn idle() -> (r: SessionStep)
        ensures
            r.events@ == Seq::<StreamEvent>::empty(),
            r.command == Command::Idle,
    {
        SessionStep { events: Vec::new(), command: Command::Idle }
    }

    /// Takes one input and returns the events to relay and the next command.
    pub fn step(&mut self, input: SessionInput) -> (r: SessionStep)
        ensures
            final(self).policy() == old(self).policy(),
            final(self).track() == old(self).track(),
            final(self)@ == session_step(old(self).policy(), old(self).track(), old(self)@, input@).next,
            crate::stream::event_views(r.events@) == session_step(
                old(self).policy(),
                old(self).track(),
                old(self)@,
                input@,
            ).events,
            r.command == session_step(old(self).policy(), old(self).track(), old(self)@, input@).command,
    {
        let ghost s0 = self@;
        let ghost empty_views = crate::stream::event_views(Seq::<StreamEvent>::empty());
        proof {
            assert(empty_views =~= seq![]);
        }
        match self.phase {
            Phase::Done => Self::idle(),
            Phase::Loading => match input {
                SessionInput::Player(sig) => {
                    if sig == PlayerSignal::Playing || sig == PlayerSignal::TrackChanged || sig
                        == PlayerSignal::EndOfTrack {
                        let mut events = self.take_pending();
                        if self.finished_pending {
                            events.push(StreamEvent::Finished);
                            proof {
                                assert(crate::stream::event_views(events@) =~= s0.pending.push(
                                    EventView::Finished,
                                ));
                            }
                            self.finish(events)
                        } else {
                            self.phase = Phase::Streaming;
                            proof {
                                assert(crate::stream::event_views(self.pending@) =~= seq![]);
                            }
                            SessionStep { events, command: Command::Idle }
                        }
                    } else if sig == PlayerSignal::Unavailable {
                        if self.retries < self.policy.max_attempts {
                            let delay = self.policy.next_backoff(self.retries);
                            self.retries = self.retries + 1;
                            self.phase = Phase::Backoff;
                            self.pending = Vec::new();
                            self.finished_pending = false;
                            proof {
                                assert(crate::stream::event_views(self.pending@) =~= seq![]);
                            }
                            let e = StreamEvent::Retry {
                                attempt: self.retries,
                                max_attempts: self.policy.max_attempts,
                            };
                            SessionStep { events: Self::single(e), command: Command::Wait { delay_ms: delay } }
                        } else {
                            let e = StreamEvent::Error(StreamError::LoadError(self.track.clone()));
                            let events = Self::single(e);
                            self.finish(events)
                        }
                    } else {
                        Self::idle()
                    }
                },
                SessionInput::Sink(SinkEvent::Write { bytes, total, content }) => {
                    self.pending.push(StreamEvent::Write { bytes, total, content });
                    proof {
                        assert(crate::stream::event_views(self.pending@) =~= s0.pending.push(
                            input@->Sink_0,
                        ));
                    }
                    Self::idle()
                },
                SessionInput::Sink(SinkEvent::Finished) => {
                    self.finished_pending = true;
                    Self::idle()
                },
                SessionInput::SinkClosed => {
                    let events = Self::single(StreamEvent::Error(StreamError::Unknown));
                    self.finish(events)
                },
                SessionInput::BackoffElapsed => Self::idle(),
            },
            Phase::Backoff => match input {
                SessionInput::BackoffElapsed => {
                    self.phase = Phase::Loading;
                    SessionStep { events: Vec::new(), command: Command::Load }
                },
                SessionInput::SinkClosed => {
                    let events = Self::single(StreamEvent::Error(StreamError::Unknown));
                    self.finish(events)
                },
                _ => Self::idle(),
            },
            Phase::Streaming => match input {
                SessionInput::Sink(SinkEvent::Write { bytes, total, content }) => {
                    let e = StreamEvent::Write { bytes, total, content };
                    SessionStep { events: Self::single(e), command: Command::Idle }
                },
                SessionInput::Sink(SinkEvent::Finished) => {
                    let events = Self::single(StreamEvent::Finished);
                    self.finish(events)
                },
                SessionInput::SinkClosed => {
                    let events = Self::single(StreamEvent::Error(StreamError::Unknown));
                    self.finish(events)
                },
                _ => Self::idle(),
            },
        }
    }
}

} // verus!

verus! {

/// Sample-sink events as session inputs.
pub open spec fn sink_inputs(events: Seq<EventView>) -> Seq<InputView> {
    events.map_values(|e: EventView| InputView::Sink(e))
}

pub open spec fn all_writes(events: Seq<EventView>) -> bool {
    forall|i: int| 0 <= i < events.len() ==> (#[trigger] events[i]) is Write
}

/// A state in which a load was just issued: nothing pending.
pub open spec fn freshly_loading(s: SessionView) -> bool {
    s.phase is Loading && s.pending == Seq::<EventView>::empty() && !s.finished_pending
}

proof fn lemma_writes_before_ready(p: RetryPolicy, track: Seq<char>, pre: Seq<InputView>, before: Seq<EventView>)
    requires
        freshly_loading(session_run(p, track, pre).0),
        all_writes(before),
    ensures
        session_run(p, track, pre + sink_inputs(before)) == (
        SessionView { pending: before, ..session_run(p, track, pre).0 },
        session_run(p, track, pre).1),
    decreases before.len(),
{
    let s0 = session_run(p, track, pre).0;
    if before.len() == 0 {
        assert(pre + sink_inputs(before) =~= pre);
        assert(before =~= seq![]);
        assert((SessionView { pending: before, ..s0 }) == s0);
    } else {
        let prev = before.drop_last();
        assert(all_writes(prev)) by {
            assert forall|i: int| 0 <= i < prev.len() implies (#[trigger] prev[i]) is Write by {
                assert(prev[i] == before[i]);
            }
        }
        lemma_writes_before_ready(p, track, pre, prev);
        assert((pre + sink_inputs(before)).drop_last() =~= pre + sink_inputs(prev));
        assert((pre + sink_inputs(before)).last() == InputView::Sink(before.last()));
        assert(before[before.len() - 1] is Write);
        assert(prev.push(before.last()) =~= before);
        assert(session_run(p, track, pre).1 + Seq::<EventView>::empty() =~= session_run(p, track, pre).1);
    }
}

proof fn lemma_writes_while_streaming(
    p: RetryPolicy,
    track: Seq<char>,
    pre: Seq<InputView>,
    before: Seq<EventView>,
    sig: PlayerSignal,
    after: Seq<EventView>,
)
    requires
        freshly_loading(session_run(p, track, pre).0),
        is_ready(sig),
        all_writes(before),
        all_writes(after),
    ensures
        ({
            let inputs = pre + sink_inputs(before) + seq![InputView::Player(sig)] + sink_inputs(
                after,
            );
            let (s0, out0) = session_run(p, track, pre);
            session_run(p, track, inputs) == (SessionView { phase: Phase::Streaming, ..s0 }, out0 + before
                + after)
        }),
    decreases after.len(),
{
    let (s0, out0) = session_run(p, track, pre);
    let head = pre + sink_inputs(before) + seq![InputView::Player(sig)];
    if after.len() == 0 {
        lemma_writes_before_ready(p, track, pre, before);
        assert(head + sink_inputs(after) =~= head);
        assert(head.drop_last() =~= pre + sink_inputs(before));
        assert(out0 + before + after =~= out0 + before);
        assert((SessionView { phase: Phase::Streaming, pending: seq![], ..SessionView { pending: before, ..s0 } })
            == (SessionView { phase: Phase::Streaming, ..s0 }));
    } else {
        let prev = after.drop_last();
        assert(all_writes(prev)) by {
            assert forall|i: int| 0 <= i < prev.len() implies (#[trigger] prev[i]) is Write by {
                assert(prev[i] == after[i]);
            }
        }
        lemma_writes_while_streaming(p, track, pre, before, sig, prev);
        assert((head + sink_inputs(after)).drop_last() =~= head + sink_inputs(prev));
        assert((head + sink_inputs(after)).last() == InputView::Sink(after.last()));
        assert(after[after.len() - 1] is Write);
        assert(out0 + before + prev + seq![after.last()] =~= out0 + before + after);
    }
}

/// When an attempt succeeds, whatever attempts failed before it, the
/// session relays every chunk the sample sink produced for it, those before
/// the player reported ready (playing, track changed or end of track) and
/// those after, in the order produced, each
/// once, and then `Finished`; nothing of the failed attempts is added.
pub proof fn lemma_relay_keeps_order(
    p: RetryPolicy,
    track: Seq<char>,
    pre: Seq<InputView>,
    before: Seq<EventView>,
    sig: PlayerSignal,
    after: Seq<EventView>,
)
    requires
        freshly_loading(session_run(p, track, pre).0),
        is_ready(sig),
        all_writes(before),
        all_writes(after),
    ensures
        ({
            let inputs = pre + sink_inputs(before) + seq![InputView::Player(sig)] + sink_inputs(
                after,
            ) + seq![InputView::Sink(EventView::Finished)];
            session_run(p, track, inputs).1 == session_run(p, track, pre).1 + before + after + seq![
                EventView::Finished,
            ]
        }),
{
    let head = pre + sink_inputs(before) + seq![InputView::Player(sig)] + sink_inputs(after);
    lemma_writes_while_streaming(p, track, pre, before, sig, after);
    let inputs = head + seq![InputView::Sink(EventView::Finished)];
    assert(inputs.drop_last() =~= head);
}

/// A new session, and one that has just waited out its backoff, are both
/// freshly loading: the relay law applies to the first attempt and to every
/// retry.
pub proof fn lemma_fresh_after_backoff(p: RetryPolicy, track: Seq<char>, pre: Seq<InputView>)
    ensures
        freshly_loading(session_run(p, track, seq![]).0),
        session_run(p, track, pre).0.phase is Backoff ==> freshly_loading(
            session_run(p, track, pre.push(InputView::BackoffElapsed)).0,
        ),
{
    lemma_backoff_is_empty(p, track, pre);
    assert(pre.push(InputView::BackoffElapsed).drop_last() =~= pre);
}

proof fn lemma_backoff_is_empty(p: RetryPolicy, track: Seq<char>, inputs: Seq<InputView>)
    ensures
        session_run(p, track, inputs).0.phase is Backoff ==> session_run(p, track, inputs).0.pending
            == Seq::<EventView>::empty() && !session_run(p, track, inputs).0.finished_pending,
    decreases inputs.len(),
{
    if inputs.len() > 0 {
        lemma_backoff_is_empty(p, track, inputs.drop_last());
    }
}

/// A player that reports every one of `n` loads unavailable, each report
/// followed by the end of the backoff.
pub open spec fn unavailable_loads(n: nat) -> Seq<InputView>
    decreases n,
{
    if n == 0 {
        seq![]
    } else {
        unavailable_loads((n - 1) as nat) + seq![
            InputView::Player(PlayerSignal::Unavailable),
            InputView::BackoffElapsed,
        ]
    }
}

/// `Retry` events numbered 1 to `n`, each carrying `max_attempts`.
pub open spec fn retry_events(n: nat, max_attempts: usize) -> Seq<EventView> {
    Seq::new(n, |i: int| EventView::Retry { attempt: (i + 1) as usize, max_attempts })
}

proof fn lemma_unavailable_loads(p: RetryPolicy, track: Seq<char>, n: nat)
    requires
        n <= p.max_attempts,
    ensures
        session_run(p, track, unavailable_loads(n)) == (
        SessionView { phase: Phase::Loading, retries: n, pending: seq![], finished_pending: false },
        retry_events(n, p.max_attempts)),
    decreases n,
{
    if n == 0 {
        assert(retry_events(0, p.max_attempts) =~= seq![]);
        assert(unavailable_loads(0) =~= seq![]);
    } else {
        let m = (n - 1) as nat;
        lemma_unavailable_loads(p, track, m);
        let i = unavailable_loads(n);
        let half = unavailable_loads(m) + seq![InputView::Player(PlayerSignal::Unavailable)];
        assert(i.drop_last() =~= half);
        assert(i.last() == InputView::BackoffElapsed);
        assert(half.drop_last() =~= unavailable_loads(m));
        assert(half.last() == InputView::Player(PlayerSignal::Unavailable));
        let s1 = session_run(p, track, half);
        assert(s1.0 == SessionView { phase: Phase::Backoff, retries: n, pending: seq![], finished_pending: false });
        assert(s1.1 == retry_events(m, p.max_attempts) + seq![
            EventView::Retry { attempt: (m + 1) as usize, max_attempts: p.max_attempts },
        ]);
        assert(session_run(p, track, i).0 == SessionView { phase: Phase::Loading, retries: n, pending: seq![], finished_pending: false });
        assert(retry_events(m, p.max_attempts) + seq![
            EventView::Retry { attempt: (m + 1) as usize, max_attempts: p.max_attempts },
        ] + Seq::<EventView>::empty() =~= retry_events(n, p.max_attempts));
    }
}

/// When the player reports every load unavailable, the session emits
/// exactly `Retry` 1, 2, ... `max_attempts`, each carrying `max_attempts`,
/// then one load error, and nothing else.
pub proof fn lemma_unavailable_track(p: RetryPolicy, track: Seq<char>)
    ensures
        session_run(
            p,
            track,
            unavailable_loads(p.max_attempts as nat) + seq![InputView::Player(PlayerSignal::Unavailable)],
        ).1 == retry_events(p.max_attempts as nat, p.max_attempts) + seq![
            EventView::Error(ErrorView::LoadError(track)),
        ],
{
    let n = p.max_attempts as nat;
    lemma_unavailable_loads(p, track, n);
    let i = unavailable_loads(n) + seq![InputView::Player(PlayerSignal::Unavailable)];
    assert(i.drop_last() =~= unavailable_loads(n));
}

} // verus!
