//! The inbound frame decoder.
//!
//! An inbound frame must be a JSON array of exactly three elements: the
//! view identifier as its canonical hyphenated string, a recognized tag,
//! and the tag's payload.  A click payload is an object with an event name
//! under `"e"` and optional extra data under `"d"`; an input payload is an
//! object with an event name under `"e"` and a string value under `"v"`.
//! Anything else decodes to nothing: a decode failure is not fatal to the
//! session, the frame is simply dropped.

use crate::json::{parse_json, parsed_json, JsonNode};
use crate::view_id::{parse_view_id, spec_parse_uuid, ViewId};
use vstd::prelude::*;
use vstd::string::StringExecFns;

verus! {

/// A decoded inbound command, together with the raw JSON text of any part
/// the session treats as opaque.
#[derive(Debug, Clone)]
pub enum Command {
    /// Attach the client to a view: run the mount handshake.
    Mount,
    /// A click event: broadcast `data` (raw JSON text) on the event's
    /// topic, or an empty marker if there is none.
    Click { event: String, data: Option<String> },
    /// An input event: broadcast the plain string `value` on the event's
    /// topic.
    Input { event: String, value: String },
}

/// The mathematical shadow of a `Command`, over character sequences.
pub enum CommandModel {
    Mount,
    Click { event: Seq<char>, data: Option<Seq<char>> },
    Input { event: Seq<char>, value: Seq<char> },
}

impl View for Command {
    type V = CommandModel;

    open spec fn view(&self) -> CommandModel {
        match self {
            Command::Mount => CommandModel::Mount,
            Command::Click { event, data } => CommandModel::Click {
                event: event@,
                data: match data {
                    Some(d) => Some(d@),
                    None => None,
                },
            },
            Command::Input { event, value } => CommandModel::Input {
                event: event@,
                value: value@,
            },
        }
    }
}

/// The value stored under `key` in an object's key/value pairs.
pub open spec fn spec_obj_get(kvs: Seq<(String, String)>, key: Seq<char>) -> Option<String>
    decreases kvs.len(),
{
    if kvs.len() == 0 {
        None
    } else if kvs[0].0@ == key {
        Some(kvs[0].1)
    } else {
        spec_obj_get(kvs.drop_first(), key)
    }
}

/// Looks `key` up among an object's key/value pairs.
fn obj_get<'a>(kvs: &'a Vec<(String, String)>, key: &String) -> (r: Option<&'a String>)
    ensures
        match r {
            Some(v) => spec_obj_get(kvs@, key@) == Some(*v),
            None => spec_obj_get(kvs@, key@) is None,
        },
{
    let mut i: usize = 0;
    proof {
        assert(kvs@.skip(0) =~= kvs@);
    }
    while i < kvs.len()
        invariant
            i <= kvs@.len(),
            spec_obj_get(kvs@, key@) == spec_obj_get(kvs@.skip(i as int), key@),
        decreases kvs@.len() - i,
    {
        proof {
            assert(kvs@.skip(i as int).drop_first() =~= kvs@.skip(i as int + 1));
            assert(kvs@.skip(i as int)[0] == kvs@[i as int]);
        }
        if kvs[i].0 == *key {
            return Some(&kvs[i].1);
        }
        i = i + 1;
    }
    proof {
        assert(kvs@.skip(i as int).len() == 0);
    }
    None
}

/// What a click payload decodes to.
pub open spec fn spec_click(data: Seq<char>) -> Option<Command> {
    match parsed_json(data) {
        Some(JsonNode::Obj(kvs)) => match spec_obj_get(kvs@, "e"@) {
            Some(etext) => match parsed_json(etext@) {
                Some(JsonNode::Str(e)) => Some(
                    Command::Click { event: e, data: spec_obj_get(kvs@, "d"@) },
                ),
                _ => None,
            },
            None => None,
        },
        _ => None,
    }
}

/// What an input payload decodes to.
pub open spec fn spec_input(data: Seq<char>) -> Option<Command> {
    match parsed_json(data) {
        Some(JsonNode::Obj(kvs)) => match (spec_obj_get(kvs@, "e"@), spec_obj_get(kvs@, "v"@)) {
            (Some(etext), Some(vtext)) => match (parsed_json(etext@), parsed_json(vtext@)) {
                (Some(JsonNode::Str(e)), Some(JsonNode::Str(v))) => Some(
                    Command::Input { event: e, value: v },
                ),
                _ => None,
            },
            _ => None,
        },
        _ => None,
    }
}

/// What a recognized tag makes of its payload.
pub open spec fn spec_dispatch(v: ViewId, tag: Seq<char>, data: String) -> Option<
    (ViewId, Command),
> {
    if tag == "axum/mount-liveview"@ {
        Some((v, Command::Mount))
    } else if tag == "axum/live-click"@ {
        match spec_click(data@) {
            Some(c) => Some((v, c)),
            None => None,
        }
    } else if tag == "axum/live-input"@ {
        match spec_input(data@) {
            Some(c) => Some((v, c)),
            None => None,
        }
    } else {
        None
    }
}

/// What one inbound text frame decodes to: the carried view identifier and
/// the typed command, or nothing for a malformed frame, an unrecognized
/// tag, or a payload of the wrong shape.
pub open spec fn spec_decode(s: Seq<char>) -> Option<(ViewId, Command)> {
    match parsed_json(s) {
        Some(JsonNode::Arr(elems)) => {
            if elems@.len() == 3 {
                match (parsed_json(elems@[0]@), parsed_json(elems@[1]@)) {
                    (Some(JsonNode::Str(vstr)), Some(JsonNode::Str(tag))) => {
                        match spec_parse_uuid(vstr@) {
                            Some(vid) => spec_dispatch(vid, tag@, elems@[2]),
                            None => None,
                        }
                    },
                    _ => None,
                }
            } else {
                None
            }
        },
        _ => None,
    }
}

/// The decoded pair seen through the command's mathematical shadow.
pub open spec fn decoded_model(r: Option<(ViewId, Command)>) -> Option<(ViewId, CommandModel)> {
    match r {
        Some((v, c)) => Some((v, c@)),
        None => None,
    }
}

/// Decodes one inbound text frame.
pub fn decode_frame(text: &str) -> (r: Option<(ViewId, Command)>)
    ensures
        r == spec_decode(text@),
{
    let node = match parse_json(text) {
        Some(n) => n,
        None => {
            return None;
        },
    };
    let elems = match node {
        JsonNode::Arr(e) => e,
        _ => {
            return None;
        },
    };
    if elems.len() != 3 {
        return None;
    }
    let vstr = match parse_json(elems[0].as_str()) {
        Some(JsonNode::Str(s)) => s,
        _ => {
            return None;
        },
    };
    let tag = match parse_json(elems[1].as_str()) {
        Some(JsonNode::Str(s)) => s,
        _ => {
            return None;
        },
    };
    let vid = match parse_view_id(vstr.as_str()) {
        Some(v) => v,
        None => {
            return None;
        },
    };
    let mount_tag = String::from_str("axum/mount-liveview");
    if tag == mount_tag {
        return Some((vid, Command::Mount));
    }
    let click_tag = String::from_str("axum/live-click");
    if tag == click_tag {
        return match decode_click(&elems[2]) {
            Some(c) => Some((vid, c)),
            None => None,
        };
    }
    let input_tag = String::from_str("axum/live-input");
    if tag == input_tag {
        return match decode_input(&elems[2]) {
            Some(c) => Some((vid, c)),
            None => None,
        };
    }
    None
}

/// Decodes a click payload.
fn decode_click(data: &String) -> (r: Option<Command>)
    ensures
        r == spec_click(data@),
{
    let kvs = match parse_json(data.as_str()) {
        Some(JsonNode::Obj(kvs)) => kvs,
        _ => {
            return None;
        },
    };
    let ekey = String::from_str("e");
    let etext = match obj_get(&kvs, &ekey) {
        Some(t) => t,
        None => {
            return None;
        },
    };
    let event = match parse_json(etext.as_str()) {
        Some(JsonNode::Str(e)) => e,
        _ => {
            return None;
        },
    };
    let dkey = String::from_str("d");
    let dval = match obj_get(&kvs, &dkey) {
        Some(d) => Some(d.clone()),
        None => None,
    };
    Some(Command::Click { event, data: dval })
}

/// Decodes an input payload.
fn decode_input(data: &String) -> (r: Option<Command>)
    ensures
        r == spec_input(data@),
{
    let kvs = match parse_json(data.as_str()) {
        Some(JsonNode::Obj(kvs)) => kvs,
        _ => {
            return None;
        },
    };
    let ekey = String::from_str("e");
    let etext = match obj_get(&kvs, &ekey) {
        Some(t) => t,
        None => {
            return None;
        },
    };
    let vkey = String::from_str("v");
    let vtext = match obj_get(&kvs, &vkey) {
        Some(t) => t,
        None => {
            return None;
        },
    };
    let event = match parse_json(etext.as_str()) {
        Some(JsonNode::Str(e)) => e,
        _ => {
            return None;
        },
    };
    let value = match parse_json(vtext.as_str()) {
        Some(JsonNode::Str(v)) => v,
        _ => {
            return None;
        },
    };
    Some(Command::Input { event, value })
}

} // verus!
