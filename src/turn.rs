use vstd::prelude::*;
use crate::template::{render_template, rendered};
use crate::words::{chars_of, feed_units, views, words};

verus! {

/// Where a session stands in its current turn.
#[derive(Clone, Copy, PartialEq, Eq, Structural, Debug)]
pub enum Phase {
    /// Waiting for the client's next prompt; no engine call is owed.
    AwaitingPrompt,
    /// Feeding the prompt to the engine; `next` is the unit to feed now.
    Feeding { next: usize },
    /// Asking the engine for the next token.
    Generating,
    /// A token is being written to the client.
    SendingToken,
    /// The end-of-turn sentinel is being written to the client.
    SendingSentinel,
    /// The connection is torn down; nothing more happens.
    Closed,
}

/// What the engine answered to one feed call.
#[derive(Clone, Copy, PartialEq, Eq, Structural, Debug)]
pub enum FeedSignal {
    /// The unit was taken; feeding goes on.
    Continue,
    /// The engine asks to stop feeding and start generating.
    Stop,
    /// The feed call failed.
    Failed,
}

/// What happened since the last step of a session.
#[derive(Debug)]
pub enum Event {
    /// A text message arrived from the client: a prompt.
    Message(String),
    /// A message that is not text arrived from the client.
    Malformed,
    /// The client's channel was closed, or reading from it failed.
    ChannelClosed,
    /// The engine answered a feed call.
    Fed(FeedSignal),
    /// The engine produced a token.
    Token(Vec<u8>),
    /// The engine produced no token: generation is complete or failed.
    InferFailed,
    /// The last message was written and flushed.
    Sent,
    /// Writing the last message failed.
    SendFailed,
}

/// What the session asks to be done next.
#[derive(Debug)]
pub enum Action {
    /// Wait for the client's next message.
    AwaitPrompt,
    /// Feed this unit to the engine.
    Feed(Vec<char>),
    /// Ask the engine for the next token.
    InferNext,
    /// Send this token to the client as one message.
    SendToken(Vec<u8>),
    /// Send the empty end-of-turn message to the client.
    SendSentinel,
    /// Tear the connection down and release the engine session.
    Close,
}

/// The mathematical value of an [`Event`].
pub enum EventView {
    Message(Seq<char>),
    Malformed,
    ChannelClosed,
    Fed(FeedSignal),
    Token(Seq<u8>),
    InferFailed,
    Sent,
    SendFailed,
}

/// The mathematical value of an [`Action`].
pub enum ActionView {
    AwaitPrompt,
    Feed(Seq<char>),
    InferNext,
    SendToken(Seq<u8>),
    SendSentinel,
    Close,
}

impl View for Event {
    type V = EventView;

    open spec fn view(&self) -> EventView {
        match self {
            Event::Message(p) => EventView::Message(p@),
            Event::Malformed => EventView::Malformed,
            Event::ChannelClosed => EventView::ChannelClosed,
            Event::Fed(f) => EventView::Fed(*f),
            Event::Token(t) => EventView::Token(t@),
            Event::InferFailed => EventView::InferFailed,
            Event::Sent => EventView::Sent,
            Event::SendFailed => EventView::SendFailed,
        }
    }
}

impl View for Action {
    type V = ActionView;

    open spec fn view(&self) -> ActionView {
        match self {
            Action::AwaitPrompt => ActionView::AwaitPrompt,
            Action::Feed(u) => ActionView::Feed(u@),
            Action::InferNext => ActionView::InferNext,
            Action::SendToken(t) => ActionView::SendToken(t@),
            Action::SendSentinel => ActionView::SendSentinel,
            Action::Close => ActionView::Close,
        }
    }
}

/// The message that an action writes to the client, if it writes one.
pub open spec fn wire(a: ActionView) -> Option<Seq<u8>> {
    match a {
        ActionView::SendToken(t) => Some(t),
        ActionView::SendSentinel => Some(Seq::empty()),
        _ => None,
    }
}

/// One connection's conversational state: the engine session it owns, the
/// prompt template, and where its current turn stands.
pub struct Session {
    id: u64,
    template: String,
    units: Vec<Vec<char>>,
    phase: Phase,
}

/// The mathematical value of a [`Session`].
pub struct SessionView {
    pub id: u64,
    pub template: Seq<char>,
    pub units: Seq<Seq<char>>,
    pub phase: Phase,
}

impl View for Session {
    type V = SessionView;

    closed spec fn view(&self) -> SessionView {
        SessionView { id: self.id, template: self.template@, units: views(self.units@), phase: self.phase }
    }
}

/// The name of the template's placeholder that the prompt fills.
pub open spec fn prompt_key() -> Seq<char> {
    "prompt"@
}

/// The feed units of the prompt `p` once rendered into `template`.
pub open spec fn prompt_units(template: Seq<char>, p: Seq<char>) -> Seq<Seq<char>> {
    words(rendered(template, prompt_key(), p))
}

/// A feeding session's cursor stands on one of its units.
pub open spec fn session_wf(s: SessionView) -> bool {
    match s.phase {
        Phase::Feeding { next } => next < s.units.len(),
        _ => true,
    }
}

/// `s` moved to `phase`.
pub open spec fn with_phase(s: SessionView, phase: Phase) -> SessionView {
    SessionView { id: s.id, template: s.template, units: s.units, phase }
}

/// Tearing the connection down.
pub open spec fn closing(s: SessionView) -> (SessionView, ActionView) {
    (with_phase(s, Phase::Closed), ActionView::Close)
}

/// The turn state machine: the session and action that follow `s` on event `e`.
/// An event that does not belong to the current phase closes the connection.
pub open spec fn next(s: SessionView, e: EventView) -> (SessionView, ActionView) {
    match s.phase {
        Phase::AwaitingPrompt => match e {
            EventView::Message(p) => {
                let u = prompt_units(s.template, p);
                let s2 = SessionView { id: s.id, template: s.template, units: u, phase: s.phase };
                if u.len() == 0 {
                    (with_phase(s2, Phase::Generating), ActionView::InferNext)
                } else {
                    (with_phase(s2, Phase::Feeding { next: 0 }), ActionView::Feed(u[0]))
                }
            },
            _ => closing(s),
        },
        Phase::Feeding { next } => match e {
            EventView::Fed(FeedSignal::Continue) => if next + 1 < s.units.len() {
                (
                    with_phase(s, Phase::Feeding { next: (next + 1) as usize }),
                    ActionView::Feed(s.units[next + 1]),
                )
            } else {
                (with_phase(s, Phase::Generating), ActionView::InferNext)
            },
            EventView::Fed(FeedSignal::Stop) => (
                with_phase(s, Phase::Generating),
                ActionView::InferNext,
            ),
            EventView::Fed(FeedSignal::Failed) => (
                with_phase(s, Phase::SendingSentinel),
                ActionView::SendSentinel,
            ),
            _ => closing(s),
        },
        Phase::Generating => match e {
            EventView::Token(t) => if t.len() > 0 {
                (with_phase(s, Phase::SendingToken), ActionView::SendToken(t))
            } else {
                closing(s)
            },
            EventView::InferFailed => (
                with_phase(s, Phase::SendingSentinel),
                ActionView::SendSentinel,
            ),
            _ => closing(s),
        },
        Phase::SendingToken => match e {
            EventView::Sent => (with_phase(s, Phase::Generating), ActionView::InferNext),
            _ => closing(s),
        },
        Phase::SendingSentinel => match e {
            EventView::Sent => (with_phase(s, Phase::AwaitingPrompt), ActionView::AwaitPrompt),
            _ => closing(s),
        },
        Phase::Closed => closing(s),
    }
}

/// The session reached from `s` after the events `evs`, in order.
pub open spec fn run(s: SessionView, evs: Seq<EventView>) -> SessionView
    decreases evs.len(),
{
    if evs.len() == 0 {
        s
    } else {
        next(run(s, evs.drop_last()), evs.last()).0
    }
}

/// The messages written to the client while `s` takes the events `evs`.
pub open spec fn messages(s: SessionView, evs: Seq<EventView>) -> Seq<Seq<u8>>
    decreases evs.len(),
{
    if evs.len() == 0 {
        seq![]
    } else {
        let before = messages(s, evs.drop_last());
        match wire(next(run(s, evs.drop_last()), evs.last()).1) {
            Some(m) => before.push(m),
            None => before,
        }
    }
}

/// Whether a turn is under way and its sentinel not yet asked for.
pub open spec fn in_turn(p: Phase) -> bool {
    p is Feeding || p == Phase::Generating || p == Phase::SendingToken
}

/// Whether `evs` is one turn from `s`: it starts with a prompt while `s`
/// waits for one, and the session does not wait for a prompt again before
/// its last event.
pub open spec fn one_turn(s: SessionView, evs: Seq<EventView>) -> bool {
    &&& s.phase == Phase::AwaitingPrompt
    &&& evs.len() > 0
    &&& evs[0] is Message
    &&& forall|k: int| 0 < k < evs.len() ==> #[trigger] run(s, evs.take(k)).phase
        != Phase::AwaitingPrompt
}

proof fn lemma_turn_messages_inductive(s: SessionView, evs: Seq<EventView>)
    requires
        one_turn(s, evs),
    ensures
        forall|i: int|
            0 <= i < messages(s, evs).len() - 1 ==> #[trigger] messages(s, evs)[i].len() > 0,
        in_turn(run(s, evs).phase) ==> forall|i: int|
            0 <= i < messages(s, evs).len() ==> #[trigger] messages(s, evs)[i].len() > 0,
        run(s, evs).phase == Phase::SendingSentinel || run(s, evs).phase == Phase::AwaitingPrompt
            ==> messages(s, evs).len() > 0 && messages(s, evs).last().len() == 0,
    decreases evs.len(),
{
    let init = evs.drop_last();
    if evs.len() == 1 {
        assert(init.len() == 0);
        assert(run(s, init) == s);
        assert(messages(s, init).len() == 0);
    } else {
        assert forall|k: int| 0 < k < init.len() implies #[trigger] run(s, init.take(k)).phase
            != Phase::AwaitingPrompt by {
            assert(init.take(k) == evs.take(k));
            assert(run(s, evs.take(k)).phase != Phase::AwaitingPrompt);
        }
        assert(init[0] == evs[0]);
        lemma_turn_messages_inductive(s, init);
        assert(init == evs.take(init.len() as int));
        assert(run(s, evs.take(init.len() as int)).phase != Phase::AwaitingPrompt);
        let m0 = messages(s, init);
        let m = messages(s, evs);
        if m.len() > m0.len() {
            assert(m == m0.push(m.last()));
            assert(forall|i: int| 0 <= i < m0.len() ==> m[i] == m0[i]);
        } else {
            assert(m == m0);
        }
    }
}

/// A turn ends with exactly one end-of-turn message: over any one turn, every
/// message written but the last is a non-empty token, and once the session
/// waits for the next prompt again, the last one was the empty sentinel; so
/// the client sees zero or more tokens and then exactly one empty message,
/// also when the engine fails at its first call.
pub proof fn lemma_turn_ends_with_one_sentinel(s: SessionView, evs: Seq<EventView>)
    requires
        one_turn(s, evs),
    ensures
        forall|i: int|
            0 <= i < messages(s, evs).len() - 1 ==> #[trigger] messages(s, evs)[i].len() > 0,
        run(s, evs).phase == Phase::AwaitingPrompt ==> messages(s, evs).len() > 0 && messages(
            s,
            evs,
        ).last().len() == 0,
{
    lemma_turn_messages_inductive(s, evs);
}

/// A connection owns one engine session for its whole life: whatever events
/// arrive, and however many prompts they carry, every prompt is fed into the
/// same engine session.
pub proof fn lemma_one_engine_session(s: SessionView, evs: Seq<EventView>)
    ensures
        run(s, evs).id == s.id,
        run(s, evs).template == s.template,
    decreases evs.len(),
{
    if evs.len() > 0 {
        lemma_one_engine_session(s, evs.drop_last());
    }
}

/// How a turn ends, step by step: the session goes back to waiting for a
/// prompt only once its sentinel has been written; the sentinel is asked for
/// exactly when feeding or generation ends, whether the engine finished or
/// failed; and once written, the connection stays open for the next prompt.
pub proof fn lemma_sentinel_ends_turn(s: SessionView, e: EventView)
    ensures
        next(s, e).1 == ActionView::SendSentinel <==> next(s, e).0.phase == Phase::SendingSentinel,
        next(s, e).0.phase == Phase::SendingSentinel ==> (s.phase == Phase::Generating || (
        s.phase is Feeding)),
        next(s, e).0.phase == Phase::AwaitingPrompt ==> s.phase == Phase::SendingSentinel,
        s.phase is Feeding && e == EventView::Fed(FeedSignal::Failed) ==> next(s, e).1
            == ActionView::SendSentinel,
        s.phase == Phase::Generating && e == EventView::InferFailed ==> next(s, e).1
            == ActionView::SendSentinel,
        s.phase == Phase::SendingSentinel && e == EventView::Sent ==> next(s, e).0.phase
            == Phase::AwaitingPrompt && next(s, e).1 == ActionView::AwaitPrompt,
{
}

/// The only empty message ever written to a client is the end-of-turn
/// sentinel: every token message is non-empty.
pub proof fn lemma_tokens_not_empty(s: SessionView, e: EventView)
    ensures
        wire(next(s, e).1) matches Some(m) && m.len() == 0 ==> next(s, e).1
            == ActionView::SendSentinel,
        next(s, e).1 matches ActionView::SendToken(t) ==> t.len() > 0,
{
}

/// Whether the session owes an engine call, and so takes part in scheduling.
pub open spec fn runnable(s: SessionView) -> bool {
    s.phase is Feeding || s.phase == Phase::Generating
}

/// The engine call that a runnable session owes.
pub open spec fn pending_call(s: SessionView) -> ActionView {
    match s.phase {
        Phase::Feeding { next } => ActionView::Feed(s.units[next as int]),
        _ => ActionView::InferNext,
    }
}

fn copy_unit(u: &Vec<char>) -> (r: Vec<char>)
    ensures
        r@ == u@,
{
    let mut r: Vec<char> = Vec::new();
    let mut i: usize = 0;
    while i < u.len()
        invariant
            i <= u.len(),
            r@ == u@.take(i as int),
        decreases u.len() - i,
    {
        r.push(u[i]);
        i += 1;
        assert(r@ == u@.take(i as int));
    }
    assert(u@.take(i as int) == u@);
    r
}

/// The feed units of `prompt` once rendered into `template`.
pub fn render_units(template: &str, prompt: &str) -> (r: Vec<Vec<char>>)
    ensures
        views(r@) == prompt_units(template@, prompt@),
{
    let text = render_template(template, "prompt", prompt);
    let chars = chars_of(text.as_str());
    feed_units(&chars)
}

impl Action {
    /// The message that this action writes to the client: a token as its own
    /// message, the sentinel as an empty one.
    pub fn into_message(self) -> (r: Option<Vec<u8>>)
        ensures
            wire(self@) matches Some(m) ==> r matches Some(x) && x@ == m,
            wire(self@) is None ==> r is None,
    {
        match self {
            Action::SendToken(t) => Some(t),
            Action::SendSentinel => Some(Vec::new()),
            _ => None,
        }
    }
}

impl Session {
    pub open spec fn wf(&self) -> bool {
        session_wf(self@)
    }

    /// A session for a new connection, owning engine session `id`.
    pub fn new(id: u64, template: String) -> (r: Session)
        ensures
            r.wf(),
            r@.id == id,
            r@.template == template@,
            r@.units == Seq::<Seq<char>>::empty(),
            r@.phase == Phase::AwaitingPrompt,
    {
        let r = Session { id, template, units: Vec::new(), phase: Phase::AwaitingPrompt };
        assert(views(r.units@) == Seq::<Seq<char>>::empty());
        r
    }

    /// The engine session that this connection owns.
    pub fn id(&self) -> (r: u64)
        ensures
            r == self@.id,
    {
        self.id
    }

    pub fn phase(&self) -> (r: Phase)
        ensures
            r == self@.phase,
    {
        self.phase
    }

    /// The engine call that this session owes now.
    pub fn engine_call(&self) -> (r: Action)
        requires
            self.wf(),
            runnable(self@),
        ensures
            r@ == pending_call(self@),
    {
        match self.phase {
            Phase::Feeding { next } => {
                assert(self@.phase == Phase::Feeding { next });
                assert(views(self.units@).len() == self.units@.len());
                Action::Feed(copy_unit(&self.units[next]))
            },
            _ => Action::InferNext,
        }
    }

    fn close(&mut self) -> (a: Action)
        ensures
            (final(self)@, a@) == closing(old(self)@),
    {
        self.phase = Phase::Closed;
        Action::Close
    }

    /// Takes one step of the turn state machine on `event`.
    pub fn step(&mut self, event: Event) -> (a: Action)
        requires
            old(self).wf(),
        ensures
            final(self).wf(),
            (final(self)@, a@) == next(old(self)@, event@),
    {
        match self.phase {
            Phase::AwaitingPrompt => match event {
                Event::Message(p) => {
                    let units = render_units(self.template.as_str(), p.as_str());
                    if units.len() == 0 {
                        self.units = units;
                        self.phase = Phase::Generating;
                        Action::InferNext
                    } else {
                        let first = copy_unit(&units[0]);
                        self.units = units;
                        self.phase = Phase::Feeding { next: 0 };
                        Action::Feed(first)
                    }
                },
                _ => self.close(),
            },
            Phase::Feeding { next } => match event {
                Event::Fed(FeedSignal::Continue) => {
                    assert(self@.phase == Phase::Feeding { next });
                    assert(views(self.units@).len() == self.units@.len());
                    assert(next < self.units.len());
                    if next + 1 < self.units.len() {
                        let unit = copy_unit(&self.units[next + 1]);
                        self.phase = Phase::Feeding { next: next + 1 };
                        Action::Feed(unit)
                    } else {
                        self.phase = Phase::Generating;
                        Action::InferNext
                    }
                },
                Event::Fed(FeedSignal::Stop) => {
                    self.phase = Phase::Generating;
                    Action::InferNext
                },
                Event::Fed(FeedSignal::Failed) => {
                    self.phase = Phase::SendingSentinel;
                    Action::SendSentinel
                },
                _ => self.close(),
            },
            Phase::Generating => match event {
                Event::Token(t) => {
                    if t.len() > 0 {
                        self.phase = Phase::SendingToken;
                        Action::SendToken(t)
                    } else {
                        self.close()
                    }
                },
                Event::InferFailed => {
                    self.phase = Phase::SendingSentinel;
                    Action::SendSentinel
                },
                _ => self.close(),
            },
            Phase::SendingToken => match event {
                Event::Sent => {
                    self.phase = Phase::Generating;
                    Action::InferNext
                },
                _ => self.close(),
            },
            Phase::SendingSentinel => match event {
                Event::Sent => {
                    self.phase = Phase::AwaitingPrompt;
                    Action::AwaitPrompt
                },
                _ => self.close(),
            },
            Phase::Closed => self.close(),
        }
    }
}

} // verus!
