//! Deterministic derivation of broadcast topics.
//!
//! A topic is the canonical textual form of a view identifier, a colon, and
//! an event or lifecycle name.  The rendering engine derives the same
//! strings independently, so the derivation is a fixed contract: it is pure,
//! total, and never collides across distinct view identifiers.

use crate::view_id::{
    format_view_id, lemma_uuid_chars_injective, lemma_uuid_chars_len, uuid_chars, ViewId,
};
use vstd::prelude::*;
use vstd::string::StringExecFns;

verus! {

/// The broadcast topic for a view identifier and an event or lifecycle
/// name.
pub open spec fn spec_topic(v: ViewId, name: Seq<char>) -> Seq<char> {
    uuid_chars(v.id) + seq![':'] + name
}

/// Derives the broadcast topic for `v` and `name`.
pub fn topic_string(v: &ViewId, name: &str) -> (r: String)
    ensures
        r@ == spec_topic(*v, name@),
{
    proof {
        reveal_strlit(":");
    }
    let mut s = format_view_id(v);
    s.append(":");
    s.append(name);
    proof {
        assert(s@ =~= spec_topic(*v, name@));
    }
    s
}

/// Topics never collide across distinct view identifiers, whatever the
/// names.
pub proof fn lemma_topic_distinct_views(v1: ViewId, v2: ViewId, n1: Seq<char>, n2: Seq<char>)
    requires
        v1 != v2,
    ensures
        spec_topic(v1, n1) != spec_topic(v2, n2),
{
    lemma_uuid_chars_len(v1.id);
    lemma_uuid_chars_len(v2.id);
    if spec_topic(v1, n1) == spec_topic(v2, n2) {
        assert(uuid_chars(v1.id) =~= spec_topic(v1, n1).subrange(0, 36));
        assert(uuid_chars(v2.id) =~= spec_topic(v2, n2).subrange(0, 36));
        lemma_uuid_chars_injective(v1, v2);
    }
}

/// For one view identifier, distinct names give distinct topics.
pub proof fn lemma_topic_distinct_names(v: ViewId, n1: Seq<char>, n2: Seq<char>)
    requires
        n1 != n2,
    ensures
        spec_topic(v, n1) != spec_topic(v, n2),
{
    lemma_uuid_chars_len(v.id);
    if spec_topic(v, n1) == spec_topic(v, n2) {
        let t = spec_topic(v, n1);
        assert(n1 =~= t.subrange(37, t.len() as int));
        assert(n2 =~= t.subrange(37, t.len() as int));
    }
}

} // verus!
