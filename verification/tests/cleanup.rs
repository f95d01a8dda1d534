use axum_liveview::session::{Action, Event, Payload, Session};
use axum_liveview::view_id::ViewId;

const V1: u128 = 0x11111111_2222_3333_4444_555555555555;
const V1_STR: &str = "11111111-2222-3333-4444-555555555555";
const V2: u128 = 0xaaaaaaaa_bbbb_cccc_dddd_eeeeeeeeeeee;
const V2_STR: &str = "aaaaaaaa-bbbb-cccc-dddd-eeeeeeeeeeee";
const V3_STR: &str = "99999999-8888-7777-6666-555555555555";

fn mount(s: &mut Session, vid: &str) {
    let acts = s.step(Event::Frame(format!("[\"{}\",\"axum/mount-liveview\",null]", vid)));
    assert_eq!(acts.len(), 2);
    s.step(Event::MountAck { ok: true });
    let acts = s.step(Event::Initial { payload: Some(String::from("{}")) });
    assert_eq!(acts.len(), 2);
}

fn disconnect_topics(acts: &[Action]) -> Vec<String> {
    acts.iter()
        .map(|a| match a {
            Action::Broadcast { topic, payload } => {
                assert!(matches!(payload, Payload::Empty));
                topic.clone()
            }
            other => panic!("cleanup emits only broadcasts, got {:?}", other),
        })
        .collect()
}

#[test]
fn disconnect_broadcasts_once_per_live_view() {
    let mut s = Session::new();
    mount(&mut s, V1_STR);
    mount(&mut s, V2_STR);
    let acts = s.step(Event::Disconnected);
    let topics = disconnect_topics(&acts);
    assert_eq!(topics.len(), 2, "exactly one cleanup broadcast per live view");
    assert!(topics.contains(&format!("{}:socket-disconnected", V1_STR)));
    assert!(topics.contains(&format!("{}:socket-disconnected", V2_STR)));
    assert!(
        !topics.contains(&format!("{}:socket-disconnected", V3_STR)),
        "no broadcast for a view never mounted on this session"
    );
    assert!(s.is_closed());
}

#[test]
fn disconnect_with_no_views_broadcasts_nothing() {
    let mut s = Session::new();
    let acts = s.step(Event::Disconnected);
    assert!(acts.is_empty());
    assert!(s.is_closed());
}

#[test]
fn cleanup_runs_exactly_once() {
    let mut s = Session::new();
    mount(&mut s, V1_STR);
    let first = s.step(Event::Disconnected);
    assert_eq!(disconnect_topics(&first).len(), 1);
    // A second disconnect, or any further event, does nothing: the session
    // is terminal and cleanup is not repeated.
    assert!(s.step(Event::Disconnected).is_empty());
    assert!(s
        .step(Event::Frame(format!("[\"{}\",\"axum/mount-liveview\",null]", V1_STR)))
        .is_empty());
    assert!(s
        .step(Event::Delta { view: ViewId { id: V1 }, payload: String::from("[1]") })
        .is_empty());
}

#[test]
fn ended_stream_gets_no_cleanup_broadcast() {
    let mut s = Session::new();
    mount(&mut s, V1_STR);
    mount(&mut s, V2_STR);
    s.step(Event::DeltaEnded { view: ViewId { id: V1 } });
    let acts = s.step(Event::Disconnected);
    let topics = disconnect_topics(&acts);
    assert_eq!(topics, vec![format!("{}:socket-disconnected", V2_STR)]);
}

#[test]
fn disconnect_mid_handshake_cleans_live_views_only() {
    let mut s = Session::new();
    mount(&mut s, V1_STR);
    // V2's handshake is in flight when the connection drops.
    s.step(Event::Frame(format!("[\"{}\",\"axum/mount-liveview\",null]", V2_STR)));
    s.step(Event::MountAck { ok: true });
    let acts = s.step(Event::Disconnected);
    let topics = disconnect_topics(&acts);
    assert_eq!(
        topics,
        vec![format!("{}:socket-disconnected", V1_STR)],
        "a view whose mount never completed is not live and gets no cleanup broadcast"
    );
    assert!(s.is_closed());
}
