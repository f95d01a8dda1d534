//! The session state machine.
//!
//! One session owns one connection.  Its loop races the next inbound frame
//! against the next delta from any live subscription; this module holds the
//! decisions of that loop as a pure step function from a state and an event
//! to the next state and a list of actions, and the driving shell performs
//! the actions (subscribe, broadcast, send, await) and feeds the outcomes
//! back in as further events.
//!
//! The mount handshake is two-phased: on a mount command the session
//! subscribes (one-shot) to the view's initial render, broadcasts the
//! mounted signal, and waits; only when the single initial payload arrives
//! does it open the persistent delta subscription and push the initial
//! frame, so the initial render can neither be lost nor duplicated by the
//! delta stream.  Mounting a view identifier that is already live on the
//! session is rejected: no duplicate subscriptions.
//!
//! Disconnection, whatever its path (receive error, send error, external
//! cancellation), moves the session to its terminal state exactly once and
//! emits one best-effort cleanup broadcast per live view.

use crate::decode::{decoded_model, spec_decode, Command, CommandModel};
use crate::topic::{spec_topic, topic_string};
use crate::view_id::ViewId;
use vstd::prelude::*;

verus! {

/// A broadcast payload.
#[derive(Debug, Clone)]
pub enum Payload {
    /// The empty marker, `null` on the wire.
    Empty,
    /// Pre-serialized JSON text, forwarded verbatim.
    Raw(String),
    /// A plain string value, sent as a bare string, not wrapped.
    Text(String),
}

/// The mathematical shadow of a `Payload`.
pub enum PayloadModel {
    Empty,
    Raw(Seq<char>),
    Text(Seq<char>),
}

impl View for Payload {
    type V = PayloadModel;

    open spec fn view(&self) -> PayloadModel {
        match self {
            Payload::Empty => PayloadModel::Empty,
            Payload::Raw(s) => PayloadModel::Raw(s@),
            Payload::Text(s) => PayloadModel::Text(s@),
        }
    }
}

/// One outside effect the driving shell must perform.
#[derive(Debug, Clone)]
pub enum Action {
    /// Open a one-shot subscription to the view's initial render topic.
    SubscribeInitial { view: ViewId, topic: String },
    /// Broadcast a payload on a topic; failure aborts only the current
    /// dispatch, never the session.
    Broadcast { topic: String, payload: Payload },
    /// Await the single payload of the one-shot initial render
    /// subscription and feed it back as `Event::Initial`.
    AwaitInitial { view: ViewId },
    /// Open the persistent delta subscription for the view.
    SubscribeDeltas { view: ViewId, topic: String },
    /// Push one outbound frame to the client; `initial` selects the wire
    /// tag, and the payload is already-serialized JSON.
    Send { view: ViewId, initial: bool, payload: String },
}

/// The mathematical shadow of an `Action`.
pub enum ActionModel {
    SubscribeInitial { view: ViewId, topic: Seq<char> },
    Broadcast { topic: Seq<char>, payload: PayloadModel },
    AwaitInitial { view: ViewId },
    SubscribeDeltas { view: ViewId, topic: Seq<char> },
    Send { view: ViewId, initial: bool, payload: Seq<char> },
}

impl View for Action {
    type V = ActionModel;

    open spec fn view(&self) -> ActionModel {
        match self {
            Action::SubscribeInitial { view, topic } => ActionModel::SubscribeInitial {
                view: *view,
                topic: topic@,
            },
            Action::Broadcast { topic, payload } => ActionModel::Broadcast {
                topic: topic@,
                payload: payload@,
            },
            Action::AwaitInitial { view } => ActionModel::AwaitInitial { view: *view },
            Action::SubscribeDeltas { view, topic } => ActionModel::SubscribeDeltas {
                view: *view,
                topic: topic@,
            },
            Action::Send { view, initial, payload } => ActionModel::Send {
                view: *view,
                initial: *initial,
                payload: payload@,
            },
        }
    }
}

/// A sequence of actions seen through their mathematical shadows.
pub open spec fn actions_model(acts: Seq<Action>) -> Seq<ActionModel> {
    acts.map_values(|a: Action| a@)
}

/// One occurrence the driving shell reports to the session.
#[derive(Debug, Clone)]
pub enum Event {
    /// An inbound text frame arrived.
    Frame(String),
    /// An inbound frame that is not text arrived; it cannot decode.
    NonText,
    /// A live delta subscription produced a payload (serialized JSON).
    Delta { view: ViewId, payload: String },
    /// A live delta subscription's stream ended; the backend closed it.
    DeltaEnded { view: ViewId },
    /// The outcome of the mounted broadcast of the handshake.
    MountAck { ok: bool },
    /// The outcome of awaiting the one-shot initial render: the payload,
    /// or nothing if the stream closed without one.
    Initial { payload: Option<String> },
    /// The connection is gone: a transport receive or send error, or
    /// external cancellation.
    Disconnected,
}

/// The mathematical shadow of an `Event`.  An inbound frame appears as
/// what it decodes to; a non-text frame decodes to nothing.
pub enum EventModel {
    Inbound(Option<(ViewId, CommandModel)>),
    Delta { view: ViewId, payload: Seq<char> },
    DeltaEnded { view: ViewId },
    MountAck { ok: bool },
    Initial { payload: Option<Seq<char>> },
    Disconnected,
}

impl View for Event {
    type V = EventModel;

    open spec fn view(&self) -> EventModel {
        match self {
            Event::Frame(text) => EventModel::Inbound(decoded_model(spec_decode(text@))),
            Event::NonText => EventModel::Inbound(None),
            Event::Delta { view, payload } => EventModel::Delta {
                view: *view,
                payload: payload@,
            },
            Event::DeltaEnded { view } => EventModel::DeltaEnded { view: *view },
            Event::MountAck { ok } => EventModel::MountAck { ok: *ok },
            Event::Initial { payload } => EventModel::Initial {
                payload: match payload {
                    Some(p) => Some(p@),
                    None => None,
                },
            },
            Event::Disconnected => EventModel::Disconnected,
        }
    }
}

/// The session's control state.
#[derive(Clone, Copy, PartialEq, Eq, Structural, Debug)]
pub enum Phase {
    /// Normal multiplexing.
    Running,
    /// The mount handshake for `view` is in flight; `acked` records that
    /// the mounted broadcast succeeded and the initial render is awaited.
    Mounting { view: ViewId, acked: bool },
    /// Terminal: cleanup has run, the session is over.
    Closed,
}

/// The mathematical shadow of a session: the views with a live delta
/// subscription, and the control state.
pub struct SessionModel {
    pub views: Seq<ViewId>,
    pub phase: Phase,
}

/// Well-formed: no view is subscribed twice, and a view mid-handshake is
/// not yet live.
pub open spec fn wf(s: SessionModel) -> bool {
    (forall|i: int, j: int|
        0 <= i < j < s.views.len() ==> s.views[i] != s.views[j]) && match s.phase {
        Phase::Mounting { view, .. } => !s.views.contains(view),
        _ => true,
    }
}

/// The index of the first occurrence of `v` in `views`.
pub open spec fn first_index(views: Seq<ViewId>, v: ViewId) -> int
    decreases views.len(),
{
    if views.len() == 0 {
        0
    } else if views[0] == v {
        0
    } else {
        1 + first_index(views.drop_first(), v)
    }
}

/// `views` with the first occurrence of `v` removed, if any.
pub open spec fn remove_view(views: Seq<ViewId>, v: ViewId) -> Seq<ViewId> {
    if views.contains(v) {
        views.remove(first_index(views, v))
    } else {
        views
    }
}

/// One best-effort cleanup broadcast per live view.
pub open spec fn cleanup_actions(views: Seq<ViewId>) -> Seq<ActionModel> {
    views.map_values(
        |v: ViewId| ActionModel::Broadcast {
            topic: spec_topic(v, "socket-disconnected"@),
            payload: PayloadModel::Empty,
        },
    )
}

/// What a decoded inbound command does while the session is running.
pub open spec fn spec_step_inbound(s: SessionModel, dec: Option<(ViewId, CommandModel)>) -> (
    SessionModel,
    Seq<ActionModel>,
) {
    match dec {
        None => (s, Seq::empty()),
        Some((v, CommandModel::Mount)) => {
            if s.views.contains(v) {
                (s, Seq::empty())
            } else {
                (
                    SessionModel { views: s.views, phase: Phase::Mounting { view: v, acked: false } },
                    seq![
                        ActionModel::SubscribeInitial {
                            view: v,
                            topic: spec_topic(v, "initial-render"@),
                        },
                        ActionModel::Broadcast {
                            topic: spec_topic(v, "mounted"@),
                            payload: PayloadModel::Empty,
                        },
                    ],
                )
            }
        },
        Some((v, CommandModel::Click { event, data })) => (
            s,
            seq![
                ActionModel::Broadcast {
                    topic: spec_topic(v, event),
                    payload: match data {
                        Some(d) => PayloadModel::Raw(d),
                        None => PayloadModel::Empty,
                    },
                },
            ],
        ),
        Some((v, CommandModel::Input { event, value })) => (
            s,
            seq![
                ActionModel::Broadcast {
                    topic: spec_topic(v, event),
                    payload: PayloadModel::Text(value),
                },
            ],
        ),
    }
}

/// The session's transition function: from a state and an event to the
/// next state and the actions to perform, in order.
pub open spec fn spec_step(s: SessionModel, e: EventModel) -> (SessionModel, Seq<ActionModel>) {
    if s.phase is Closed {
        (s, Seq::empty())
    } else {
        match e {
            EventModel::Disconnected => (
                SessionModel { views: Seq::empty(), phase: Phase::Closed },
                cleanup_actions(s.views),
            ),
            EventModel::Inbound(dec) => {
                if s.phase is Running {
                    spec_step_inbound(s, dec)
                } else {
                    (s, Seq::empty())
                }
            },
            EventModel::Delta { view, payload } => {
                if s.phase is Running && s.views.contains(view) {
                    (s, seq![ActionModel::Send { view, initial: false, payload }])
                } else {
                    (s, Seq::empty())
                }
            },
            EventModel::DeltaEnded { view } => {
                if s.phase is Running {
                    (SessionModel { views: remove_view(s.views, view), phase: s.phase }, Seq::empty())
                } else {
                    (s, Seq::empty())
                }
            },
            EventModel::MountAck { ok } => {
                match s.phase {
                    Phase::Mounting { view, acked: false } => {
                        if ok {
                            (
                                SessionModel {
                                    views: s.views,
                                    phase: Phase::Mounting { view, acked: true },
                                },
                                seq![ActionModel::AwaitInitial { view }],
                            )
                        } else {
                            (SessionModel { views: s.views, phase: Phase::Running }, Seq::empty())
                        }
                    },
                    _ => (s, Seq::empty()),
                }
            },
            EventModel::Initial { payload } => {
                match s.phase {
                    Phase::Mounting { view, acked: true } => {
                        match payload {
                            Some(p) => (
                                SessionModel { views: s.views.push(view), phase: Phase::Running },
                                seq![
                                    ActionModel::SubscribeDeltas {
                                        view,
                                        topic: spec_topic(view, "rendered"@),
                                    },
                                    ActionModel::Send { view, initial: true, payload: p },
                                ],
                            ),
                            // The one-shot stream closed without a value: the
                            // mount fails silently and the view never becomes
                            // live.
                            None => (
                                SessionModel { views: s.views, phase: Phase::Running },
                                Seq::empty(),
                            ),
                        }
                    },
                    _ => (s, Seq::empty()),
                }
            },
        }
    }
}

/// The session state for one client connection.
pub struct Session {
    views: Vec<ViewId>,
    phase: Phase,
}

impl View for Session {
    type V = SessionModel;

    closed spec fn view(&self) -> SessionModel {
        SessionModel { views: self.views@, phase: self.phase }
    }
}

impl Session {
    /// A fresh session: running, with no live subscription.
    pub fn new() -> (s: Session)
        ensures
            s@.views == Seq::<ViewId>::empty(),
            s@.phase is Running,
            wf(s@),
    {
        let s = Session { views: Vec::new(), phase: Phase::Running };
        proof {
            assert(s@.views =~= Seq::<ViewId>::empty());
        }
        s
    }

    /// The session has terminated and performs no further work.
    pub fn is_closed(&self) -> (r: bool)
        ensures
            r == (self@.phase is Closed),
    {
        match self.phase {
            Phase::Closed => true,
            _ => false,
        }
    }

    /// The index of the first live subscription for `v`, if any.
    fn find_view(&self, v: &ViewId) -> (r: Option<usize>)
        ensures
            match r {
                Some(i) => self@.views.contains(*v) && i == first_index(self@.views, *v) && i
                    < self@.views.len(),
                None => !self@.views.contains(*v),
            },
    {
        let mut i: usize = 0;
        while i < self.views.len()
            invariant
                i <= self@.views.len(),
                forall|j: int| 0 <= j < i ==> self@.views[j] != *v,
            decreases self@.views.len() - i,
        {
            if self.views[i] == *v {
                proof {
                    lemma_first_index(self@.views, *v, i as int);
                }
                return Some(i);
            }
            i = i + 1;
        }
        proof {
            if self@.views.contains(*v) {
                let k = choose|k: int| 0 <= k < self@.views.len() && self@.views[k] == *v;
                assert(self@.views[k] != *v);
            }
        }
        None
    }

    /// Feeds one event to the session; returns the actions to perform, in
    /// order.  The transition is exactly `spec_step` on the session's and
    /// the event's mathematical shadows.
    pub fn step(&mut self, event: Event) -> (acts: Vec<Action>)
        requires
            wf(old(self)@),
        ensures
            wf(final(self)@),
            final(self)@ == spec_step(old(self)@, event@).0,
            actions_model(acts@) == spec_step(old(self)@, event@).1,
    {
        proof {
            lemma_step_wf(old(self)@, event@);
        }
        let ghost expect = spec_step(old(self)@, event@).1;
        if let Phase::Closed = self.phase {
            let acts: Vec<Action> = Vec::new();
            proof {
                assert(actions_model(acts@) =~= expect);
            }
            return acts;
        }
        match event {
            Event::Disconnected => {
                let mut acts: Vec<Action> = Vec::new();
                let ghost pre_views = self@.views;
                let mut i: usize = 0;
                while i < self.views.len()
                    invariant
                        i <= self.views@.len(),
                        self.views@ == pre_views,
                        actions_model(acts@) =~= cleanup_actions(pre_views.take(i as int)),
                    decreases self.views@.len() - i,
                {
                    let v = self.views[i];
                    let t = topic_string(&v, "socket-disconnected");
                    let ghost prev = acts@;
                    acts.push(Action::Broadcast { topic: t, payload: Payload::Empty });
                    proof {
                        let whole = cleanup_actions(pre_views.take(i as int + 1));
                        assert(actions_model(prev).len() == prev.len());
                        assert(cleanup_actions(pre_views.take(i as int)).len() == i as int);
                        assert(prev.len() == i as int);
                        assert(whole.len() == i as int + 1);
                        assert(actions_model(acts@).len() == i as int + 1);
                        assert forall|k: int| 0 <= k < acts@.len() implies actions_model(acts@)[k]
                            == whole[k] by {
                            if k < i as int {
                                assert(actions_model(prev)[k] == cleanup_actions(
                                    pre_views.take(i as int),
                                )[k]);
                                assert(acts@[k] == prev[k]);
                            }
                        }
                        assert(actions_model(acts@) =~= whole);
                    }
                    i = i + 1;
                }
                self.views = Vec::new();
                self.phase = Phase::Closed;
                proof {
                    assert(pre_views.take(pre_views.len() as int) =~= pre_views);
                    assert(self@.views =~= Seq::<ViewId>::empty());
                    assert(actions_model(acts@) =~= expect);
                }
                acts
            },
            Event::Frame(text) => {
                if let Phase::Running = self.phase {
                    let dec = crate::decode::decode_frame(text.as_str());
                    self.dispatch(dec)
                } else {
                    let acts: Vec<Action> = Vec::new();
                    proof {
                        assert(actions_model(acts@) =~= expect);
                    }
                    acts
                }
            },
            Event::NonText => {
                let acts: Vec<Action> = Vec::new();
                proof {
                    assert(actions_model(acts@) =~= expect);
                }
                acts
            },
            Event::Delta { view, payload } => {
                let mut acts: Vec<Action> = Vec::new();
                let live = if let Phase::Running = self.phase {
                    self.find_view(&view).is_some()
                } else {
                    false
                };
                if live {
                    acts.push(Action::Send { view, initial: false, payload });
                }
                proof {
                    assert(actions_model(acts@) =~= expect);
                }
                acts
            },
            Event::DeltaEnded { view } => {
                if let Phase::Running = self.phase {
                    match self.find_view(&view) {
                        Some(i) => {
                            self.views.remove(i);
                        },
                        None => {},
                    }
                }
                let acts: Vec<Action> = Vec::new();
                proof {
                    assert(actions_model(acts@) =~= expect);
                }
                acts
            },
            Event::MountAck { ok } => {
                let mut acts: Vec<Action> = Vec::new();
                if let Phase::Mounting { view, acked: false } = self.phase {
                    if ok {
                        self.phase = Phase::Mounting { view, acked: true };
                        acts.push(Action::AwaitInitial { view });
                    } else {
                        self.phase = Phase::Running;
                    }
                }
                proof {
                    assert(actions_model(acts@) =~= expect);
                }
                acts
            },
            Event::Initial { payload } => {
                let mut acts: Vec<Action> = Vec::new();
                if let Phase::Mounting { view, acked: true } = self.phase {
                    match payload {
                        Some(p) => {
                            let t = topic_string(&view, "rendered");
                            acts.push(Action::SubscribeDeltas { view, topic: t });
                            acts.push(Action::Send { view, initial: true, payload: p });
                            self.views.push(view);
                            self.phase = Phase::Running;
                        },
                        None => {
                            self.phase = Phase::Running;
                        },
                    }
                }
                proof {
                    assert(actions_model(acts@) =~= expect);
                }
                acts
            },
        }
    }

    /// Dispatches one decoded inbound command while running.
    fn dispatch(&mut self, dec: Option<(ViewId, Command)>) -> (acts: Vec<Action>)
        requires
            wf(old(self)@),
            old(self)@.phase is Running,
        ensures
            final(self)@ == spec_step_inbound(old(self)@, decoded_model(dec)).0,
            actions_model(acts@) == spec_step_inbound(old(self)@, decoded_model(dec)).1,
    {
        let ghost expect = spec_step_inbound(old(self)@, decoded_model(dec)).1;
        let mut acts: Vec<Action> = Vec::new();
        match dec {
            None => {
                proof {
                    assert(actions_model(acts@) =~= expect);
                }
                acts
            },
            Some((v, Command::Mount)) => {
                if self.find_view(&v).is_none() {
                    let t1 = topic_string(&v, "initial-render");
                    acts.push(Action::SubscribeInitial { view: v, topic: t1 });
                    let t2 = topic_string(&v, "mounted");
                    acts.push(Action::Broadcast { topic: t2, payload: Payload::Empty });
                    self.phase = Phase::Mounting { view: v, acked: false };
                }
                proof {
                    assert(actions_model(acts@) =~= expect);
                }
                acts
            },
            Some((v, Command::Click { event, data })) => {
                let t = topic_string(&v, event.as_str());
                let p = match data {
                    Some(d) => Payload::Raw(d),
                    None => Payload::Empty,
                };
                acts.push(Action::Broadcast { topic: t, payload: p });
                proof {
                    assert(actions_model(acts@) =~= expect);
                }
                acts
            },
            Some((v, Command::Input { event, value })) => {
                let t = topic_string(&v, event.as_str());
                acts.push(Action::Broadcast { topic: t, payload: Payload::Text(value) });
                proof {
                    assert(actions_model(acts@) =~= expect);
                }
                acts
            },
        }
    }
}

proof fn lemma_first_index(views: Seq<ViewId>, v: ViewId, i: int)
    requires
        0 <= i < views.len(),
        views[i] == v,
        forall|j: int| 0 <= j < i ==> views[j] != v,
    ensures
        views.contains(v),
        first_index(views, v) == i,
    decreases i,
{
    if i > 0 {
        lemma_first_index(views.drop_first(), v, i - 1);
    }
}

/// One step preserves well-formedness.
pub proof fn lemma_step_wf(s: SessionModel, e: EventModel)
    requires
        wf(s),
    ensures
        wf(spec_step(s, e).0),
{
    let s1 = spec_step(s, e).0;
    match e {
        EventModel::Initial { payload } => {
            match s.phase {
                Phase::Mounting { view, acked: true } => {
                    match payload {
                        Some(_) => {
                            assert(forall|i: int, j: int|
                                0 <= i < j < s1.views.len() ==> s1.views[i] != s1.views[j]) by {
                                assert(forall|i: int|
                                    0 <= i < s.views.len() ==> s.views[i] != view) by {
                                    assert(forall|i: int|
                                        0 <= i < s.views.len() ==> s.views.contains(
                                            #[trigger] s.views[i],
                                        ));
                                }
                            }
                        },
                        None => {},
                    }
                },
                _ => {},
            }
        },
        EventModel::DeltaEnded { view } => {
            if s.phase is Running && s.views.contains(view) {
                let k = first_index(s.views, view);
                lemma_first_index_bounds(s.views, view);
                assert(forall|i: int, j: int|
                    0 <= i < j < s1.views.len() ==> s1.views[i] != s1.views[j]);
                match s1.phase {
                    Phase::Mounting { view: m, .. } => {
                        if s1.views.contains(m) {
                            let q = choose|q: int|
                                0 <= q < s1.views.len() && s1.views[q] == m;
                            assert(s.views.contains(m));
                        }
                    },
                    _ => {},
                }
            }
        },
        _ => {},
    }
}

/// The first occurrence of a contained value lies inside the sequence.
pub proof fn lemma_first_index_bounds(views: Seq<ViewId>, v: ViewId)
    requires
        views.contains(v),
    ensures
        0 <= first_index(views, v) < views.len(),
        views[first_index(views, v)] == v,
    decreases views.len(),
{
    if views[0] != v {
        assert(views.drop_first().contains(v)) by {
            let k = choose|k: int| 0 <= k < views.len() && views[k] == v;
            assert(views.drop_first()[k - 1] == v);
        }
        lemma_first_index_bounds(views.drop_first(), v);
    }
}

} // verus!
