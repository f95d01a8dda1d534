use axum_liveview::decode::{decode_frame, Command};
use axum_liveview::encode::encode_frame;
use axum_liveview::topic::topic_string;
use axum_liveview::view_id::{format_view_id, parse_view_id, ViewId};

const VID: u128 = 0x11111111_2222_3333_4444_555555555555;
const VID_STR: &str = "11111111-2222-3333-4444-555555555555";

#[test]
fn format_canonical() {
    let v = ViewId { id: 0x00112233_4455_6677_8899_aabbccddeeff };
    assert_eq!(format_view_id(&v).as_str(), "00112233-4455-6677-8899-aabbccddeeff");
}

#[test]
fn format_zero_and_max() {
    assert_eq!(
        format_view_id(&ViewId { id: 0 }).as_str(),
        "00000000-0000-0000-0000-000000000000"
    );
    assert_eq!(
        format_view_id(&ViewId { id: u128::MAX }).as_str(),
        "ffffffff-ffff-ffff-ffff-ffffffffffff"
    );
}

#[test]
fn parse_round_trip() {
    let v = ViewId { id: VID };
    let s = format_view_id(&v);
    assert_eq!(parse_view_id(s.as_str()), Some(v));
}

#[test]
fn parse_exact_value() {
    let r = parse_view_id("00000000-0000-0000-0000-000000000010");
    assert_eq!(r, Some(ViewId { id: 16 }));
    let r = parse_view_id("80000000-0000-0000-0000-000000000000");
    assert_eq!(r, Some(ViewId { id: 1u128 << 127 }));
}

#[test]
fn parse_accepts_uppercase() {
    let r = parse_view_id("00112233-4455-6677-8899-AABBCCDDEEFF");
    assert_eq!(r, Some(ViewId { id: 0x00112233_4455_6677_8899_aabbccddeeff }));
}

#[test]
fn parse_rejects_bad_forms() {
    assert_eq!(parse_view_id(""), None);
    assert_eq!(parse_view_id("00112233-4455-6677-8899-aabbccddeef"), None);
    assert_eq!(parse_view_id("00112233-4455-6677-8899-aabbccddeeffa"), None);
    assert_eq!(parse_view_id("001122334455-6677-8899-aabbccddeeff"), None);
    assert_eq!(parse_view_id("0011223g-4455-6677-8899-aabbccddeeff"), None);
    assert_eq!(parse_view_id("00112233-4455+6677-8899-aabbccddeeff"), None);
}

#[test]
fn topic_is_id_colon_name() {
    let v = ViewId { id: VID };
    assert_eq!(
        topic_string(&v, "inc").as_str(),
        "11111111-2222-3333-4444-555555555555:inc"
    );
    assert_eq!(
        topic_string(&v, "socket-disconnected").as_str(),
        "11111111-2222-3333-4444-555555555555:socket-disconnected"
    );
}

#[test]
fn encode_initial_frame() {
    let v = ViewId { id: VID };
    assert_eq!(
        encode_frame(&v, true, "{\"h\":1}").as_str(),
        "[\"11111111-2222-3333-4444-555555555555\",\"i\",{\"h\":1}]"
    );
}

#[test]
fn encode_delta_frame() {
    let v = ViewId { id: VID };
    assert_eq!(
        encode_frame(&v, false, "[\"p\"]").as_str(),
        "[\"11111111-2222-3333-4444-555555555555\",\"r\",[\"p\"]]"
    );
}

#[test]
fn decode_mount() {
    let text = format!("[\"{}\",\"axum/mount-liveview\",null]", VID_STR);
    let (v, cmd) = decode_frame(&text).expect("mount frame decodes");
    assert_eq!(v, ViewId { id: VID });
    assert!(matches!(cmd, Command::Mount));
}

#[test]
fn decode_mount_ignores_payload() {
    let text = format!("[\"{}\",\"axum/mount-liveview\",{{\"x\":1}}]", VID_STR);
    let (_, cmd) = decode_frame(&text).expect("mount frame decodes");
    assert!(matches!(cmd, Command::Mount));
}

#[test]
fn decode_click_with_data() {
    let text = format!(
        "[\"{}\",\"axum/live-click\",{{\"e\":\"inc\",\"d\":{{\"n\":1}}}}]",
        VID_STR
    );
    let (v, cmd) = decode_frame(&text).expect("click frame decodes");
    assert_eq!(v, ViewId { id: VID });
    match cmd {
        Command::Click { event, data } => {
            assert_eq!(event.as_str(), "inc");
            assert_eq!(data.as_deref(), Some("{\"n\":1}"));
        }
        other => panic!("expected click, got {:?}", other),
    }
}

#[test]
fn decode_click_without_data() {
    let text = format!("[\"{}\",\"axum/live-click\",{{\"e\":\"inc\"}}]", VID_STR);
    let (_, cmd) = decode_frame(&text).expect("click frame decodes");
    match cmd {
        Command::Click { event, data } => {
            assert_eq!(event.as_str(), "inc");
            assert_eq!(data, None);
        }
        other => panic!("expected click, got {:?}", other),
    }
}

#[test]
fn decode_input() {
    let text = format!(
        "[\"{}\",\"axum/live-input\",{{\"e\":\"name\",\"v\":\"abc\"}}]",
        VID_STR
    );
    let (v, cmd) = decode_frame(&text).expect("input frame decodes");
    assert_eq!(v, ViewId { id: VID });
    match cmd {
        Command::Input { event, value } => {
            assert_eq!(event.as_str(), "name");
            assert_eq!(value.as_str(), "abc");
        }
        other => panic!("expected input, got {:?}", other),
    }
}

#[test]
fn decode_rejects_malformed() {
    assert!(decode_frame("").is_none());
    assert!(decode_frame("not json").is_none());
    assert!(decode_frame("{\"liveview_id\":\"x\"}").is_none());
    let two = format!("[\"{}\",\"axum/mount-liveview\"]", VID_STR);
    assert!(decode_frame(&two).is_none());
    let four = format!("[\"{}\",\"axum/mount-liveview\",null,null]", VID_STR);
    assert!(decode_frame(&four).is_none());
}

#[test]
fn decode_rejects_unknown_tag() {
    let text = format!("[\"{}\",\"axum/other\",null]", VID_STR);
    assert!(decode_frame(&text).is_none());
}

#[test]
fn decode_rejects_bad_view_id() {
    assert!(decode_frame("[\"not-a-uuid\",\"axum/mount-liveview\",null]").is_none());
    assert!(decode_frame("[42,\"axum/mount-liveview\",null]").is_none());
}

#[test]
fn decode_rejects_bad_shapes() {
    let click_no_e = format!("[\"{}\",\"axum/live-click\",{{\"d\":1}}]", VID_STR);
    assert!(decode_frame(&click_no_e).is_none());
    let click_num_e = format!("[\"{}\",\"axum/live-click\",{{\"e\":5}}]", VID_STR);
    assert!(decode_frame(&click_num_e).is_none());
    let click_arr = format!("[\"{}\",\"axum/live-click\",[1,2]]", VID_STR);
    assert!(decode_frame(&click_arr).is_none());
    let input_no_v = format!("[\"{}\",\"axum/live-input\",{{\"e\":\"n\"}}]", VID_STR);
    assert!(decode_frame(&input_no_v).is_none());
    let input_num_v = format!("[\"{}\",\"axum/live-input\",{{\"e\":\"n\",\"v\":7}}]", VID_STR);
    assert!(decode_frame(&input_num_v).is_none());
}

#[test]
fn decode_survives_whitespace_and_extra_keys() {
    let text = format!(
        "[ \"{}\" , \"axum/live-input\" , {{\"x\":0,\"e\":\"n\",\"v\":\"y\",\"z\":[]}} ]",
        VID_STR
    );
    let (_, cmd) = decode_frame(&text).expect("decodes despite whitespace and extras");
    match cmd {
        Command::Input { event, value } => {
            assert_eq!(event.as_str(), "n");
            assert_eq!(value.as_str(), "y");
        }
        other => panic!("expected input, got {:?}", other),
    }
}
