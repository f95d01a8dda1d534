use axum_liveview::session::{Action, Event, Payload, Session};
use axum_liveview::view_id::ViewId;

const V1: u128 = 0x11111111_2222_3333_4444_555555555555;
const V1_STR: &str = "11111111-2222-3333-4444-555555555555";
const V2: u128 = 0xaaaaaaaa_bbbb_cccc_dddd_eeeeeeeeeeee;
const V2_STR: &str = "aaaaaaaa-bbbb-cccc-dddd-eeeeeeeeeeee";

fn mount_frame(vid: &str) -> Event {
    Event::Frame(format!("[\"{}\",\"axum/mount-liveview\",null]", vid))
}

/// Runs the full mount handshake for `vid` and returns the actions of the
/// final step (subscribe to deltas, send initial frame).
fn mount(s: &mut Session, vid: &str, initial_payload: &str) -> Vec<Action> {
    let acts = s.step(mount_frame(vid));
    assert_eq!(acts.len(), 2, "mount dispatch: subscribe one-shot, broadcast mounted");
    assert!(matches!(&acts[0], Action::SubscribeInitial { .. }));
    assert!(matches!(&acts[1], Action::Broadcast { .. }));
    let acts = s.step(Event::MountAck { ok: true });
    assert_eq!(acts.len(), 1);
    assert!(matches!(&acts[0], Action::AwaitInitial { .. }));
    s.step(Event::Initial { payload: Some(String::from(initial_payload)) })
}

#[test]
fn mount_handshake_order() {
    let mut s = Session::new();
    let acts = s.step(mount_frame(V1_STR));
    match &acts[0] {
        Action::SubscribeInitial { view, topic } => {
            assert_eq!(*view, ViewId { id: V1 });
            assert_eq!(topic.as_str(), format!("{}:initial-render", V1_STR));
        }
        other => panic!("expected one-shot subscribe, got {:?}", other),
    }
    match &acts[1] {
        Action::Broadcast { topic, payload } => {
            assert_eq!(topic.as_str(), format!("{}:mounted", V1_STR));
            assert!(matches!(payload, Payload::Empty));
        }
        other => panic!("expected mounted broadcast, got {:?}", other),
    }
}

#[test]
fn initial_render_before_any_delta() {
    let mut s = Session::new();
    // No delta frame can be produced before the initial render is pushed:
    // deltas for a view that is not yet live are dropped.
    let early = s.step(Event::Delta { view: ViewId { id: V1 }, payload: String::from("[1]") });
    assert!(early.is_empty());
    let acts = mount(&mut s, V1_STR, "{\"h\":1}");
    assert_eq!(acts.len(), 2);
    match &acts[0] {
        Action::SubscribeDeltas { view, topic } => {
            assert_eq!(*view, ViewId { id: V1 });
            assert_eq!(topic.as_str(), format!("{}:rendered", V1_STR));
        }
        other => panic!("expected delta subscribe, got {:?}", other),
    }
    match &acts[1] {
        Action::Send { view, initial, payload } => {
            assert_eq!(*view, ViewId { id: V1 });
            assert!(*initial, "the first frame for a view is the initial render");
            assert_eq!(payload.as_str(), "{\"h\":1}");
        }
        other => panic!("expected initial send, got {:?}", other),
    }
}

#[test]
fn delta_fidelity_after_mount() {
    let mut s = Session::new();
    mount(&mut s, V1_STR, "{\"h\":1}");
    let acts = s.step(Event::Delta {
        view: ViewId { id: V1 },
        payload: String::from("[\"exact-delta\"]"),
    });
    assert_eq!(acts.len(), 1, "one broadcast delta, one outbound frame");
    match &acts[0] {
        Action::Send { view, initial, payload } => {
            assert_eq!(*view, ViewId { id: V1 });
            assert!(!*initial, "subsequent deltas carry the delta tag");
            assert_eq!(payload.as_str(), "[\"exact-delta\"]", "payload forwarded unchanged");
        }
        other => panic!("expected delta send, got {:?}", other),
    }
}

#[test]
fn click_broadcasts_on_event_topic() {
    let mut s = Session::new();
    let acts = s.step(Event::Frame(format!(
        "[\"{}\",\"axum/live-click\",{{\"e\":\"inc\",\"d\":{{\"n\":1}}}}]",
        V1_STR
    )));
    assert_eq!(acts.len(), 1, "exactly one broadcast");
    match &acts[0] {
        Action::Broadcast { topic, payload } => {
            assert_eq!(topic.as_str(), format!("{}:inc", V1_STR));
            match payload {
                Payload::Raw(d) => assert_eq!(d.as_str(), "{\"n\":1}"),
                other => panic!("expected raw data payload, got {:?}", other),
            }
        }
        other => panic!("expected broadcast, got {:?}", other),
    }
}

#[test]
fn click_without_data_broadcasts_empty_marker() {
    let mut s = Session::new();
    let acts = s.step(Event::Frame(format!(
        "[\"{}\",\"axum/live-click\",{{\"e\":\"inc\"}}]",
        V1_STR
    )));
    assert_eq!(acts.len(), 1);
    match &acts[0] {
        Action::Broadcast { topic, payload } => {
            assert_eq!(topic.as_str(), format!("{}:inc", V1_STR));
            assert!(matches!(payload, Payload::Empty));
        }
        other => panic!("expected broadcast, got {:?}", other),
    }
}

#[test]
fn input_broadcasts_raw_string_value() {
    let mut s = Session::new();
    let acts = s.step(Event::Frame(format!(
        "[\"{}\",\"axum/live-input\",{{\"e\":\"name\",\"v\":\"abc\"}}]",
        V1_STR
    )));
    assert_eq!(acts.len(), 1);
    match &acts[0] {
        Action::Broadcast { topic, payload } => {
            assert_eq!(topic.as_str(), format!("{}:name", V1_STR));
            match payload {
                Payload::Text(v) => assert_eq!(v.as_str(), "abc", "plain string, not wrapped"),
                other => panic!("expected plain string payload, got {:?}", other),
            }
        }
        other => panic!("expected broadcast, got {:?}", other),
    }
}

#[test]
fn outbound_frame_wire_form() {
    let mut s = Session::new();
    let acts = mount(&mut s, V1_STR, "{\"h\":1}");
    match &acts[1] {
        Action::Send { view, initial, payload } => {
            let frame = axum_liveview::encode::encode_frame(view, *initial, payload);
            assert_eq!(frame.as_str(), format!("[\"{}\",\"i\",{{\"h\":1}}]", V1_STR));
        }
        other => panic!("expected initial send, got {:?}", other),
    }
}

#[test]
fn malformed_frames_are_dropped_and_session_continues() {
    let mut s = Session::new();
    assert!(s.step(Event::Frame(String::from("not json"))).is_empty());
    assert!(s.step(Event::Frame(String::from("[1,2]"))).is_empty());
    assert!(s
        .step(Event::Frame(format!("[\"{}\",\"axum/unknown\",null]", V1_STR)))
        .is_empty());
    assert!(s
        .step(Event::Frame(format!("[\"{}\",\"axum/live-input\",{{\"e\":\"n\"}}]", V1_STR)))
        .is_empty());
    assert!(s.step(Event::NonText).is_empty());
    assert!(!s.is_closed(), "decode failures are not fatal");
    // A valid frame afterwards is still processed.
    let acts = s.step(Event::Frame(format!(
        "[\"{}\",\"axum/live-click\",{{\"e\":\"go\"}}]",
        V1_STR
    )));
    assert_eq!(acts.len(), 1);
}

#[test]
fn deltas_are_isolated_per_view() {
    let mut s = Session::new();
    mount(&mut s, V1_STR, "{\"a\":1}");
    mount(&mut s, V2_STR, "{\"b\":2}");
    let acts = s.step(Event::Delta { view: ViewId { id: V1 }, payload: String::from("[1]") });
    assert_eq!(acts.len(), 1);
    match &acts[0] {
        Action::Send { view, .. } => {
            assert_eq!(*view, ViewId { id: V1 }, "a delta for one view is never tagged with another");
            assert_ne!(*view, ViewId { id: V2 });
        }
        other => panic!("expected send, got {:?}", other),
    }
    let acts = s.step(Event::Delta { view: ViewId { id: V2 }, payload: String::from("[2]") });
    assert_eq!(acts.len(), 1);
    match &acts[0] {
        Action::Send { view, .. } => assert_eq!(*view, ViewId { id: V2 }),
        other => panic!("expected send, got {:?}", other),
    }
}

#[test]
fn remount_of_live_view_is_rejected() {
    let mut s = Session::new();
    mount(&mut s, V1_STR, "{\"a\":1}");
    let acts = s.step(mount_frame(V1_STR));
    assert!(acts.is_empty(), "no duplicate subscription for a live view");
    // The view stays live: deltas still flow.
    let acts = s.step(Event::Delta { view: ViewId { id: V1 }, payload: String::from("[1]") });
    assert_eq!(acts.len(), 1);
}

#[test]
fn delta_for_unknown_view_is_dropped() {
    let mut s = Session::new();
    mount(&mut s, V1_STR, "{\"a\":1}");
    let acts = s.step(Event::Delta { view: ViewId { id: V2 }, payload: String::from("[2]") });
    assert!(acts.is_empty());
}

#[test]
fn ended_stream_is_removed_silently() {
    let mut s = Session::new();
    mount(&mut s, V1_STR, "{\"a\":1}");
    let acts = s.step(Event::DeltaEnded { view: ViewId { id: V1 } });
    assert!(acts.is_empty());
    let acts = s.step(Event::Delta { view: ViewId { id: V1 }, payload: String::from("[1]") });
    assert!(acts.is_empty(), "after its stream ended the view is no longer live");
}

#[test]
fn failed_mount_ack_aborts_handshake() {
    let mut s = Session::new();
    s.step(mount_frame(V1_STR));
    let acts = s.step(Event::MountAck { ok: false });
    assert!(acts.is_empty(), "mounted broadcast failed: dispatch aborted");
    let acts = s.step(Event::Delta { view: ViewId { id: V1 }, payload: String::from("[1]") });
    assert!(acts.is_empty(), "the view never became live");
}

#[test]
fn empty_initial_stream_fails_mount_silently() {
    let mut s = Session::new();
    s.step(mount_frame(V1_STR));
    s.step(Event::MountAck { ok: true });
    let acts = s.step(Event::Initial { payload: None });
    assert!(acts.is_empty(), "no frame, no error: the mount fails silently");
    let acts = s.step(Event::Delta { view: ViewId { id: V1 }, payload: String::from("[1]") });
    assert!(acts.is_empty(), "the view never became live");
    // The identifier is free to mount again afterwards.
    let acts = s.step(mount_frame(V1_STR));
    assert_eq!(acts.len(), 2);
}
