//! The outbound wire envelope.
//!
//! Every frame pushed to the client is a three-element JSON array of the
//! view identifier, a one-character tag, and a payload that is already
//! serialized JSON.  The identifier and the tag contain no characters that
//! need escaping, and the payload is spliced in verbatim, so the envelope is
//! assembled by plain concatenation.

use crate::view_id::{format_view_id, uuid_chars, ViewId};
use vstd::prelude::*;
use vstd::string::StringExecFns;

verus! {

/// The wire tag: "i" marks the initial render, "r" a subsequent delta.
pub open spec fn spec_tag(initial: bool) -> Seq<char> {
    if initial {
        seq!['i']
    } else {
        seq!['r']
    }
}

/// The outbound wire envelope around a serialized payload.
pub open spec fn spec_frame(v: ViewId, initial: bool, payload: Seq<char>) -> Seq<char> {
    seq!['[', '"'] + uuid_chars(v.id) + seq!['"', ',', '"'] + spec_tag(initial) + seq!['"', ',']
        + payload + seq![']']
}

/// Serializes one outbound envelope. `payload` must already be JSON text.
pub fn encode_frame(v: &ViewId, initial: bool, payload: &str) -> (r: String)
    ensures
        r@ == spec_frame(*v, initial, payload@),
{
    proof {
        reveal_strlit("[\"");
        reveal_strlit("\",\"");
        reveal_strlit("i");
        reveal_strlit("r");
        reveal_strlit("\",");
        reveal_strlit("]");
    }
    let mut s = String::from_str("[\"");
    let uid = format_view_id(v);
    s.append(uid.as_str());
    s.append("\",\"");
    if initial {
        s.append("i");
    } else {
        s.append("r");
    }
    s.append("\",");
    s.append(payload);
    s.append("]");
    proof {
        assert(s@ =~= spec_frame(*v, initial, payload@));
    }
    s
}

/// Envelopes for distinct view identifiers are distinct, whatever the tags
/// and payloads: a frame carries exactly one view's identity.
pub proof fn lemma_frame_distinct_views(
    v1: ViewId,
    v2: ViewId,
    i1: bool,
    i2: bool,
    p1: Seq<char>,
    p2: Seq<char>,
)
    requires
        v1 != v2,
    ensures
        spec_frame(v1, i1, p1) != spec_frame(v2, i2, p2),
{
    crate::view_id::lemma_uuid_chars_len(v1.id);
    crate::view_id::lemma_uuid_chars_len(v2.id);
    if spec_frame(v1, i1, p1) == spec_frame(v2, i2, p2) {
        assert(uuid_chars(v1.id) =~= spec_frame(v1, i1, p1).subrange(2, 38));
        assert(uuid_chars(v2.id) =~= spec_frame(v2, i2, p2).subrange(2, 38));
        crate::view_id::lemma_uuid_chars_injective(v1, v2);
    }
}

} // verus!
