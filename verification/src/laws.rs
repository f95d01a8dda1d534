//! Laws of the session machine.
//!
//! These proof functions state the externally visible guarantees of the
//! session over the pure step function: the ordering of the initial render
//! before any delta, fidelity of delta and event forwarding, rejection of
//! malformed frames and of duplicate mounts, isolation between views, and
//! the exactly-once disconnect cleanup.

use crate::decode::CommandModel;
use crate::session::{
    cleanup_actions, lemma_step_wf, spec_step, ActionModel, EventModel, PayloadModel, Phase,
    SessionModel, wf,
};
use crate::topic::{lemma_topic_distinct_views, spec_topic};
use crate::view_id::ViewId;
use vstd::prelude::*;

verus! {

/// Folds a sequence of events through the step function from a starting
/// state, collecting every action in order.
pub open spec fn run_steps(s: SessionModel, es: Seq<EventModel>) -> (
    SessionModel,
    Seq<ActionModel>,
)
    decreases es.len(),
{
    if es.len() == 0 {
        (s, Seq::empty())
    } else {
        let first = spec_step(s, es[0]);
        let rest = run_steps(first.0, es.drop_first());
        (rest.0, first.1 + rest.1)
    }
}

/// The action pushing a delta ("r") frame for `v` to the client.
pub open spec fn is_delta_send(a: ActionModel, v: ViewId) -> bool {
    a matches ActionModel::Send { view, initial, .. } && view == v && !initial
}

/// The action pushing the initial render ("i") frame for `v` to the client.
pub open spec fn is_initial_send(a: ActionModel, v: ViewId) -> bool {
    a matches ActionModel::Send { view, initial, .. } && view == v && initial
}

/// The best-effort cleanup broadcast for `v`.
pub open spec fn is_disconnect_broadcast(a: ActionModel, v: ViewId) -> bool {
    a == (ActionModel::Broadcast {
        topic: spec_topic(v, "socket-disconnected"@),
        payload: PayloadModel::Empty,
    })
}

/// One step emits a delta frame for `v` only if `v` is already live.
proof fn lemma_step_delta_needs_live(s: SessionModel, e: EventModel, v: ViewId, j: int)
    requires
        0 <= j < spec_step(s, e).1.len(),
        is_delta_send(spec_step(s, e).1[j], v),
    ensures
        s.views.contains(v),
{
    if !(s.phase is Closed) {
        match e {
            EventModel::Disconnected => {
                assert(spec_step(s, e).1[j] == cleanup_actions(s.views)[j]);
            },
            _ => {},
        }
    }
}

/// One step makes `v` live only by sending its initial frame in that very
/// step.
proof fn lemma_step_live_gain(s: SessionModel, e: EventModel, v: ViewId)
    requires
        wf(s),
        !s.views.contains(v),
        spec_step(s, e).0.views.contains(v),
    ensures
        exists|k: int|
            0 <= k < spec_step(s, e).1.len() && is_initial_send(spec_step(s, e).1[k], v),
{
    let s1 = spec_step(s, e).0;
    if !(s.phase is Closed) {
        match e {
            EventModel::DeltaEnded { view } => {
                if s.phase is Running && s.views.contains(view) {
                    let k = crate::session::first_index(s.views, view);
                    crate::session::lemma_first_index_bounds(s.views, view);
                    s.views.remove_ensures(k);
                    let q = choose|q: int| 0 <= q < s1.views.len() && s1.views[q] == v;
                    if q < k {
                        assert(s.views[q] == v);
                    } else {
                        assert(s.views[q + 1] == v);
                    }
                }
            },
            EventModel::Initial { payload } => {
                match s.phase {
                    Phase::Mounting { view, acked: true } => {
                        match payload {
                            Some(_) => {
                                if view != v {
                                    let q = choose|q: int|
                                        0 <= q < s1.views.len() && s1.views[q] == v;
                                    assert(s.views[q] == v);
                                }
                                assert(is_initial_send(spec_step(s, e).1[1], v));
                            },
                            None => {},
                        }
                    },
                    _ => {},
                }
            },
            _ => {},
        }
    }
}

/// In any run of the machine from a well-formed state, a delta frame for
/// `v` appears only if `v` was live at the start or the initial frame for
/// `v` was pushed earlier in the run.
pub proof fn lemma_run_delta_after_initial(
    s: SessionModel,
    es: Seq<EventModel>,
    v: ViewId,
    j: int,
)
    requires
        wf(s),
        0 <= j < run_steps(s, es).1.len(),
        is_delta_send(run_steps(s, es).1[j], v),
    ensures
        s.views.contains(v) || exists|i: int|
            0 <= i < j && is_initial_send(run_steps(s, es).1[i], v),
    decreases es.len(),
{
    let acts = run_steps(s, es).1;
    let a0 = spec_step(s, es[0]).1;
    let s1 = spec_step(s, es[0]).0;
    let rest = run_steps(s1, es.drop_first()).1;
    assert(acts == a0 + rest);
    lemma_step_wf(s, es[0]);
    if j < a0.len() {
        assert(acts[j] == a0[j]);
        lemma_step_delta_needs_live(s, es[0], v, j);
    } else {
        assert(acts[j] == rest[j - a0.len()]);
        lemma_run_delta_after_initial(s1, es.drop_first(), v, j - a0.len());
        if s1.views.contains(v) && !s.views.contains(v) {
            lemma_step_live_gain(s, es[0], v);
            let k = choose|k: int| 0 <= k < a0.len() && is_initial_send(a0[k], v);
            assert(acts[k] == a0[k]);
            assert(0 <= k < j && is_initial_send(acts[k], v));
        } else if !s.views.contains(v) {
            let i0 = choose|i: int|
                0 <= i < j - a0.len() && is_initial_send(rest[i], v);
            assert(acts[i0 + a0.len()] == rest[i0]);
            assert(0 <= i0 + a0.len() < j && is_initial_send(acts[i0 + a0.len()], v));
        }
    }
}

/// Ordering: in any run from a state where `v` is not yet live, the
/// initial render frame for `v` is pushed before any delta frame for `v`.
pub proof fn lemma_initial_before_delta(s: SessionModel, es: Seq<EventModel>, v: ViewId, j: int)
    requires
        wf(s),
        !s.views.contains(v),
        0 <= j < run_steps(s, es).1.len(),
        is_delta_send(run_steps(s, es).1[j], v),
    ensures
        exists|i: int| 0 <= i < j && is_initial_send(run_steps(s, es).1[i], v),
{
    lemma_run_delta_after_initial(s, es, v, j);
}

/// Fidelity: while running, one delta broadcast for a live view yields
/// exactly one outbound delta frame, for that view, with the payload
/// unchanged; the session state does not change.
pub proof fn lemma_delta_fidelity(s: SessionModel, v: ViewId, p: Seq<char>)
    requires
        s.phase is Running,
        s.views.contains(v),
    ensures
        spec_step(s, EventModel::Delta { view: v, payload: p }).0 == s,
        spec_step(s, EventModel::Delta { view: v, payload: p }).1 =~= seq![
            ActionModel::Send { view: v, initial: false, payload: p },
        ],
{
}

/// Isolation: the actions produced by a delta event for `v` never push a
/// frame for any other view.
pub proof fn lemma_delta_isolation(s: SessionModel, v: ViewId, p: Seq<char>)
    ensures
        forall|j: int|
            0 <= j < spec_step(s, EventModel::Delta { view: v, payload: p }).1.len() ==> ((
            #[trigger] spec_step(s, EventModel::Delta { view: v, payload: p }).1[j])
                matches ActionModel::Send { view, .. } ==> view == v),
{
}

/// A click event broadcasts exactly once, on the topic of its view and
/// event name, with the carried data or the empty marker; the state does
/// not change.
pub proof fn lemma_click_broadcast(
    s: SessionModel,
    v: ViewId,
    event: Seq<char>,
    data: Option<Seq<char>>,
)
    requires
        s.phase is Running,
    ensures
        spec_step(s, EventModel::Inbound(Some((v, CommandModel::Click { event, data })))).0 == s,
        spec_step(s, EventModel::Inbound(Some((v, CommandModel::Click { event, data })))).1 =~= seq![
            ActionModel::Broadcast {
                topic: spec_topic(v, event),
                payload: match data {
                    Some(d) => PayloadModel::Raw(d),
                    None => PayloadModel::Empty,
                },
            },
        ],
{
}

/// An input event broadcasts exactly once, on the topic of its view and
/// event name, with the plain string value, not wrapped; the state does
/// not change.
pub proof fn lemma_input_broadcast(s: SessionModel, v: ViewId, event: Seq<char>, value: Seq<char>)
    requires
        s.phase is Running,
    ensures
        spec_step(s, EventModel::Inbound(Some((v, CommandModel::Input { event, value })))).0 == s,
        spec_step(s, EventModel::Inbound(Some((v, CommandModel::Input { event, value })))).1 =~= seq![
            ActionModel::Broadcast {
                topic: spec_topic(v, event),
                payload: PayloadModel::Text(value),
            },
        ],
{
}

/// A frame that decodes to nothing produces no action and no state
/// change: the session keeps running.
pub proof fn lemma_malformed_ignored(s: SessionModel)
    ensures
        spec_step(s, EventModel::Inbound(None)).0 == s,
        spec_step(s, EventModel::Inbound(None)).1 =~= Seq::<ActionModel>::empty(),
{
}

/// Mounting a view identifier that is already live on the session is
/// rejected: no action, no state change, no duplicate subscription.
pub proof fn lemma_remount_rejected(s: SessionModel, v: ViewId)
    requires
        s.views.contains(v),
    ensures
        spec_step(s, EventModel::Inbound(Some((v, CommandModel::Mount)))).0 == s,
        spec_step(s, EventModel::Inbound(Some((v, CommandModel::Mount)))).1 =~= Seq::<
            ActionModel,
        >::empty(),
{
}

/// A closed session is terminal: whatever events still arrive, the state
/// never changes and no further action — in particular no second cleanup
/// broadcast — is ever produced.
pub proof fn lemma_closed_is_terminal(s: SessionModel, es: Seq<EventModel>)
    requires
        s.phase is Closed,
    ensures
        run_steps(s, es).0 == s,
        run_steps(s, es).1 =~= Seq::<ActionModel>::empty(),
    decreases es.len(),
{
    if es.len() > 0 {
        lemma_closed_is_terminal(s, es.drop_first());
    }
}

/// Every run from a well-formed state ends in a well-formed state.
pub proof fn lemma_run_wf(s: SessionModel, es: Seq<EventModel>)
    requires
        wf(s),
    ensures
        wf(run_steps(s, es).0),
    decreases es.len(),
{
    if es.len() > 0 {
        lemma_step_wf(s, es[0]);
        lemma_run_wf(spec_step(s, es[0]).0, es.drop_first());
    }
}

/// Disconnect cleanup: the session closes, every live view gets exactly
/// one disconnect broadcast, and a view that is not live gets none.
pub proof fn lemma_disconnect_cleanup(s: SessionModel)
    requires
        wf(s),
        !(s.phase is Closed),
    ensures
        spec_step(s, EventModel::Disconnected).0.phase is Closed,
        spec_step(s, EventModel::Disconnected).1.len() == s.views.len(),
        forall|j: int|
            0 <= j < s.views.len() ==> spec_step(s, EventModel::Disconnected).1[j] == (
            ActionModel::Broadcast {
                topic: spec_topic(s.views[j], "socket-disconnected"@),
                payload: PayloadModel::Empty,
            }),
        forall|v: ViewId|
            s.views.contains(v) ==> exists|j: int|
                0 <= j < spec_step(s, EventModel::Disconnected).1.len()
                    && is_disconnect_broadcast(#[trigger] spec_step(s, EventModel::Disconnected).1[j], v),
        forall|v: ViewId, j1: int, j2: int|
            0 <= j1 < spec_step(s, EventModel::Disconnected).1.len() && 0 <= j2 < spec_step(
                s,
                EventModel::Disconnected,
            ).1.len() && #[trigger] is_disconnect_broadcast(
                spec_step(s, EventModel::Disconnected).1[j1],
                v,
            ) && #[trigger] is_disconnect_broadcast(
                spec_step(s, EventModel::Disconnected).1[j2],
                v,
            ) ==> j1 == j2,
        forall|v: ViewId, j: int|
            !s.views.contains(v) && 0 <= j < spec_step(s, EventModel::Disconnected).1.len()
                ==> !(#[trigger] is_disconnect_broadcast(
                spec_step(s, EventModel::Disconnected).1[j],
                v,
            )),
{
    let acts = spec_step(s, EventModel::Disconnected).1;
    assert(acts == cleanup_actions(s.views));
    assert forall|v: ViewId, j: int|
        0 <= j < acts.len() && #[trigger] is_disconnect_broadcast(acts[j], v) implies s.views[j]
        == v by {
        assert(acts[j] == cleanup_actions(s.views)[j]);
        if s.views[j] != v {
            lemma_topic_distinct_views(s.views[j], v, "socket-disconnected"@, "socket-disconnected"@);
        }
    }
    assert forall|v: ViewId| s.views.contains(v) implies exists|j: int|
        0 <= j < acts.len() && is_disconnect_broadcast(#[trigger] acts[j], v) by {
        let j = choose|j: int| 0 <= j < s.views.len() && s.views[j] == v;
        assert(acts[j] == cleanup_actions(s.views)[j]);
        assert(is_disconnect_broadcast(acts[j], v));
    }
    assert forall|v: ViewId, j: int|
        !s.views.contains(v) && 0 <= j < acts.len() implies !(#[trigger] is_disconnect_broadcast(
        acts[j],
        v,
    )) by {
        if is_disconnect_broadcast(acts[j], v) {
            assert(s.views[j] == v);
        }
    }
}

} // verus!
