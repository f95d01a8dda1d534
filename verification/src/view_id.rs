//! View identifiers and their canonical textual form.
//!
//! A view identifier is an opaque 128-bit token naming one logical
//! server-rendered view instance.  On the wire it travels as the canonical
//! hyphenated hexadecimal form (8-4-4-4-12 lowercase digits); both sides of
//! the protocol derive topic names from that form, so formatting and parsing
//! are part of the protocol and verified here.

use vstd::arithmetic::div_mod::{
    lemma_div_denominator, lemma_fundamental_div_mod, lemma_multiply_divide_lt,
};
use vstd::prelude::*;
use vstd::string::{StrSliceExecFns, StringExecFns};

verus! {

/// An opaque 128-bit identifier naming one logical server-rendered view
/// instance. Supplied by the client in every inbound frame.
#[derive(Clone, Copy, PartialEq, Eq, Structural, Debug, Hash)]
pub struct ViewId {
    pub id: u128,
}

/// 16^4, the weight of one four-digit group.
pub const GROUP4: u128 = 0x10000;

/// 16^12, the weight of the final twelve-digit group.
pub const GROUP12: u128 = 0x1000000000000;

/// 16^16.
pub const GROUP16: u128 = 0x10000000000000000;

/// 16^20.
pub const GROUP20: u128 = 0x100000000000000000000;

/// 16^24, the weight of the leading eight-digit group.
pub const GROUP24: u128 = 0x1000000000000000000000000;

/// 16 raised to the power `n`.
pub open spec fn pow16(n: nat) -> int
    decreases n,
{
    if n == 0 {
        1
    } else {
        16 * pow16((n - 1) as nat)
    }
}

/// The numeric value of one hexadecimal digit character, or -1 for any
/// other character.
pub open spec fn hex_digit_val(c: char) -> int {
    if '0' <= c && c <= '9' {
        c as int - '0' as int
    } else if 'a' <= c && c <= 'f' {
        c as int - 'a' as int + 10
    } else if 'A' <= c && c <= 'F' {
        c as int - 'A' as int + 10
    } else {
        -1
    }
}

pub open spec fn is_hex_digit(c: char) -> bool {
    hex_digit_val(c) >= 0
}

/// The lowercase character for one hexadecimal digit value.
pub open spec fn hex_char(d: int) -> char {
    if d == 0 {
        '0'
    } else if d == 1 {
        '1'
    } else if d == 2 {
        '2'
    } else if d == 3 {
        '3'
    } else if d == 4 {
        '4'
    } else if d == 5 {
        '5'
    } else if d == 6 {
        '6'
    } else if d == 7 {
        '7'
    } else if d == 8 {
        '8'
    } else if d == 9 {
        '9'
    } else if d == 10 {
        'a'
    } else if d == 11 {
        'b'
    } else if d == 12 {
        'c'
    } else if d == 13 {
        'd'
    } else if d == 14 {
        'e'
    } else {
        'f'
    }
}

/// The `n` low hexadecimal digits of `v`, most significant first,
/// in lowercase.
pub open spec fn hex_chars(v: int, n: nat) -> Seq<char>
    decreases n,
{
    if n == 0 {
        Seq::empty()
    } else {
        hex_chars(v / 16, (n - 1) as nat).push(hex_char(v % 16))
    }
}

/// Every character of `s` is a hexadecimal digit.
pub open spec fn all_hex(s: Seq<char>) -> bool {
    forall|i: int| 0 <= i < s.len() ==> is_hex_digit(#[trigger] s[i])
}

/// The value of a sequence of hexadecimal digits, most significant first.
pub open spec fn hex_val(s: Seq<char>) -> int
    decreases s.len(),
{
    if s.len() == 0 {
        0
    } else {
        hex_val(s.drop_last()) * 16 + hex_digit_val(s.last())
    }
}

/// The canonical hyphenated form of a view identifier: five groups of
/// 8, 4, 4, 4 and 12 lowercase hexadecimal digits.
pub open spec fn uuid_chars(v: u128) -> Seq<char> {
    let vi = v as int;
    hex_chars(vi / (GROUP24 as int), 8) + seq!['-'] + hex_chars(
        (vi / (GROUP20 as int)) % (GROUP4 as int),
        4,
    ) + seq!['-'] + hex_chars((vi / (GROUP16 as int)) % (GROUP4 as int), 4) + seq!['-'] + hex_chars(
        (vi / (GROUP12 as int)) % (GROUP4 as int),
        4,
    ) + seq!['-'] + hex_chars(vi % (GROUP12 as int), 12)
}

/// The view identifier denoted by a character sequence, if it is a valid
/// canonical hyphenated form (case-insensitive digits).
pub open spec fn spec_parse_uuid(s: Seq<char>) -> Option<ViewId> {
    if s.len() == 36 && s[8] == '-' && s[13] == '-' && s[18] == '-' && s[23] == '-' {
        let a = s.subrange(0, 8);
        let b = s.subrange(9, 13);
        let c = s.subrange(14, 18);
        let d = s.subrange(19, 23);
        let e = s.subrange(24, 36);
        if all_hex(a) && all_hex(b) && all_hex(c) && all_hex(d) && all_hex(e) {
            Some(
                ViewId {
                    id: (((((hex_val(a) * (GROUP4 as int) + hex_val(b)) * (GROUP4 as int) + hex_val(
                        c,
                    )) * (GROUP4 as int) + hex_val(d)) * (GROUP12 as int)) + hex_val(
                        e,
                    )) as u128,
                },
            )
        } else {
            None
        }
    } else {
        None
    }
}

pub proof fn lemma_pow16_concrete()
    ensures
        pow16(4) == GROUP4 as int,
        pow16(8) == 0x100000000,
        pow16(11) == 0x100000000000,
        pow16(12) == GROUP12 as int,
{
    reveal_with_fuel(pow16, 13);
}

pub proof fn lemma_hex_chars_len(v: int, n: nat)
    ensures
        hex_chars(v, n).len() == n,
    decreases n,
{
    if n > 0 {
        lemma_hex_chars_len(v / 16, (n - 1) as nat);
    }
}

/// A digit character produced from a value in range carries that value.
proof fn lemma_hex_char_val(d: int)
    requires
        0 <= d < 16,
    ensures
        hex_digit_val(hex_char(d)) == d,
{
}

/// The digits of a bounded value are valid and evaluate back to it.
pub proof fn lemma_hex_chars_val(v: int, n: nat)
    requires
        0 <= v < pow16(n),
    ensures
        all_hex(hex_chars(v, n)),
        hex_val(hex_chars(v, n)) == v,
    decreases n,
{
    if n == 0 {
    } else {
        let p = pow16((n - 1) as nat);
        lemma_pow16_pos((n - 1) as nat);
        lemma_multiply_divide_lt(v, 16, p);
        lemma_hex_chars_val(v / 16, (n - 1) as nat);
        lemma_hex_chars_len(v / 16, (n - 1) as nat);
        let prefix = hex_chars(v / 16, (n - 1) as nat);
        let whole = prefix.push(hex_char(v % 16));
        assert(whole.drop_last() =~= prefix);
        assert(whole.last() == hex_char(v % 16));
        lemma_hex_char_val(v % 16);
        lemma_fundamental_div_mod(v, 16);
        assert(forall|i: int|
            0 <= i < whole.len() ==> is_hex_digit(#[trigger] whole[i])) by {
            assert(forall|i: int|
                0 <= i < prefix.len() ==> is_hex_digit(#[trigger] prefix[i]));
        }
    }
}

pub proof fn lemma_pow16_pos(n: nat)
    ensures
        pow16(n) >= 1,
    decreases n,
{
    if n > 0 {
        lemma_pow16_pos((n - 1) as nat);
    }
}

/// A sequence of hexadecimal digits evaluates to a value bounded by the
/// sequence's length.
pub proof fn lemma_hex_val_bound(s: Seq<char>)
    requires
        all_hex(s),
    ensures
        0 <= hex_val(s) < pow16(s.len()),
    decreases s.len(),
{
    if s.len() > 0 {
        assert(all_hex(s.drop_last()));
        lemma_hex_val_bound(s.drop_last());
        assert(0 <= hex_digit_val(s.last()) < 16);
    }
}

pub proof fn lemma_pow16_le(m: nat, n: nat)
    requires
        m <= n,
    ensures
        pow16(m) <= pow16(n),
    decreases n,
{
    if m < n {
        lemma_pow16_le(m, (n - 1) as nat);
        lemma_pow16_pos((n - 1) as nat);
    }
}

/// Appends the lowercase character of one hexadecimal digit value.
fn append_hex_digit(s: &mut String, d: u128)
    requires
        d < 16,
    ensures
        final(s)@ == old(s)@.push(hex_char(d as int)),
{
    proof {
        reveal_strlit("0");
        reveal_strlit("1");
        reveal_strlit("2");
        reveal_strlit("3");
        reveal_strlit("4");
        reveal_strlit("5");
        reveal_strlit("6");
        reveal_strlit("7");
        reveal_strlit("8");
        reveal_strlit("9");
        reveal_strlit("a");
        reveal_strlit("b");
        reveal_strlit("c");
        reveal_strlit("d");
        reveal_strlit("e");
        reveal_strlit("f");
    }
    let ghost pre = s@;
    if d == 0 {
        s.append("0");
    } else if d == 1 {
        s.append("1");
    } else if d == 2 {
        s.append("2");
    } else if d == 3 {
        s.append("3");
    } else if d == 4 {
        s.append("4");
    } else if d == 5 {
        s.append("5");
    } else if d == 6 {
        s.append("6");
    } else if d == 7 {
        s.append("7");
    } else if d == 8 {
        s.append("8");
    } else if d == 9 {
        s.append("9");
    } else if d == 10 {
        s.append("a");
    } else if d == 11 {
        s.append("b");
    } else if d == 12 {
        s.append("c");
    } else if d == 13 {
        s.append("d");
    } else if d == 14 {
        s.append("e");
    } else {
        s.append("f");
    }
    proof {
        assert(s@ =~= pre.push(hex_char(d as int)));
    }
}

/// Appends the `n` low hexadecimal digits of `v`, most significant first.
fn append_hex(s: &mut String, v: u128, n: usize)
    ensures
        final(s)@ == old(s)@ + hex_chars(v as int, n as nat),
    decreases n,
{
    if n > 0 {
        append_hex(s, v / 16, n - 1);
        append_hex_digit(s, v % 16);
        proof {
            assert(s@ =~= old(s)@ + hex_chars(v as int, n as nat));
        }
    } else {
        proof {
            assert(s@ =~= old(s)@ + hex_chars(v as int, 0));
        }
    }
}

/// The canonical hyphenated textual form of a view identifier.
pub fn format_view_id(v: &ViewId) -> (r: String)
    ensures
        r@ == uuid_chars(v.id),
{
    proof {
        reveal_strlit("-");
    }
    let mut s = String::new();
    append_hex(&mut s, v.id / GROUP24, 8);
    s.append("-");
    append_hex(&mut s, (v.id / GROUP20) % GROUP4, 4);
    s.append("-");
    append_hex(&mut s, (v.id / GROUP16) % GROUP4, 4);
    s.append("-");
    append_hex(&mut s, (v.id / GROUP12) % GROUP4, 4);
    s.append("-");
    append_hex(&mut s, v.id % GROUP12, 12);
    proof {
        assert(s@ =~= uuid_chars(v.id));
    }
    s
}

/// The numeric value of one hexadecimal digit character.
fn hex_digit_value(c: char) -> (r: Option<u8>)
    ensures
        r matches Some(d) ==> (is_hex_digit(c) && d as int == hex_digit_val(c)),
        r is None ==> !is_hex_digit(c),
{
    let u = c as u32;
    if u >= '0' as u32 && u <= '9' as u32 {
        Some((u - '0' as u32) as u8)
    } else if u >= 'a' as u32 && u <= 'f' as u32 {
        Some((u - 'a' as u32 + 10) as u8)
    } else if u >= 'A' as u32 && u <= 'F' as u32 {
        Some((u - 'A' as u32 + 10) as u8)
    } else {
        None
    }
}

/// Parses the hexadecimal digits of `s` between `from` and `to`.
fn parse_hex_group(s: &str, from: usize, to: usize) -> (r: Option<u128>)
    requires
        from <= to <= s@.len(),
        to - from <= 12,
    ensures
        r matches Some(v) ==> (all_hex(s@.subrange(from as int, to as int)) && v as int == hex_val(
            s@.subrange(from as int, to as int),
        ) && (v as int) < pow16((to - from) as nat)),
        r is None ==> !all_hex(s@.subrange(from as int, to as int)),
{
    let mut acc: u128 = 0;
    let mut i: usize = from;
    while i < to
        invariant
            from <= i <= to <= s@.len(),
            to - from <= 12,
            all_hex(s@.subrange(from as int, i as int)),
            acc as int == hex_val(s@.subrange(from as int, i as int)),
        decreases to - i,
    {
        let c = s.get_char(i);
        match hex_digit_value(c) {
            Some(d) => {
                proof {
                    let pre = s@.subrange(from as int, i as int);
                    let post = s@.subrange(from as int, i as int + 1);
                    assert(post.drop_last() =~= pre);
                    assert(post.last() == s@[i as int]);
                    lemma_hex_val_bound(pre);
                    lemma_pow16_le(pre.len(), 11);
                    lemma_pow16_concrete();
                }
                acc = acc * 16 + d as u128;
                i = i + 1;
            },
            None => {
                proof {
                    assert(s@.subrange(from as int, to as int)[i - from] == s@[i as int]);
                }
                return None;
            },
        }
    }
    proof {
        lemma_hex_val_bound(s@.subrange(from as int, to as int));
    }
    Some(acc)
}

/// Parses the canonical hyphenated textual form of a view identifier.
pub fn parse_view_id(s: &str) -> (r: Option<ViewId>)
    ensures
        r == spec_parse_uuid(s@),
{
    if s.unicode_len() != 36 {
        return None;
    }
    if !(s.get_char(8) == '-' && s.get_char(13) == '-' && s.get_char(18) == '-' && s.get_char(23)
        == '-') {
        return None;
    }
    let a = match parse_hex_group(s, 0, 8) {
        Some(v) => v,
        None => { return None; },
    };
    let b = match parse_hex_group(s, 9, 13) {
        Some(v) => v,
        None => { return None; },
    };
    let c = match parse_hex_group(s, 14, 18) {
        Some(v) => v,
        None => { return None; },
    };
    let d = match parse_hex_group(s, 19, 23) {
        Some(v) => v,
        None => { return None; },
    };
    let e = match parse_hex_group(s, 24, 36) {
        Some(v) => v,
        None => { return None; },
    };
    proof {
        lemma_pow16_concrete();
    }
    let hi: u128 = ((a * GROUP4 + b) * GROUP4 + c) * GROUP4 + d;
    let v: u128 = hi * GROUP12 + e;
    Some(ViewId { id: v })
}

/// Formatting a view identifier and parsing the result gives it back:
/// the canonical textual form denotes exactly the identifier it was
/// derived from.
pub proof fn lemma_uuid_round_trip(v: ViewId)
    ensures
        spec_parse_uuid(uuid_chars(v.id)) == Some(v),
{
    let vi = v.id as int;
    let g24 = GROUP24 as int;
    let g20 = GROUP20 as int;
    let g16 = GROUP16 as int;
    let g12 = GROUP12 as int;
    let g4 = GROUP4 as int;
    let av = vi / g24;
    let bv = (vi / g20) % g4;
    let cv = (vi / g16) % g4;
    let dv = (vi / g12) % g4;
    let ev = vi % g12;
    let ha = hex_chars(av, 8);
    let hb = hex_chars(bv, 4);
    let hc = hex_chars(cv, 4);
    let hd = hex_chars(dv, 4);
    let he = hex_chars(ev, 12);
    lemma_hex_chars_len(av, 8);
    lemma_hex_chars_len(bv, 4);
    lemma_hex_chars_len(cv, 4);
    lemma_hex_chars_len(dv, 4);
    lemma_hex_chars_len(ev, 12);
    let u = uuid_chars(v.id);
    assert(u.len() == 36);
    lemma_pow16_concrete();
    lemma_multiply_divide_lt(vi, g24, 0x100000000);
    lemma_hex_chars_val(av, 8);
    lemma_hex_chars_val(bv, 4);
    lemma_hex_chars_val(cv, 4);
    lemma_hex_chars_val(dv, 4);
    lemma_hex_chars_val(ev, 12);
    assert(u[8] == '-' && u[13] == '-' && u[18] == '-' && u[23] == '-');
    assert(u.subrange(0, 8) =~= ha);
    assert(u.subrange(9, 13) =~= hb);
    assert(u.subrange(14, 18) =~= hc);
    assert(u.subrange(19, 23) =~= hd);
    assert(u.subrange(24, 36) =~= he);
    // Reassemble the identifier from its digit groups.
    lemma_fundamental_div_mod(vi, g12);
    lemma_fundamental_div_mod(vi / g12, g4);
    lemma_div_denominator(vi, g12, g4);
    assert(g12 * g4 == g16);
    lemma_fundamental_div_mod(vi / g16, g4);
    lemma_div_denominator(vi, g16, g4);
    assert(g16 * g4 == g20);
    lemma_fundamental_div_mod(vi / g20, g4);
    lemma_div_denominator(vi, g20, g4);
    assert(g20 * g4 == g24);
    assert(vi / g20 == (vi / g24) * g4 + bv);
    assert(vi / g16 == (vi / g20) * g4 + cv);
    assert(vi / g12 == (vi / g16) * g4 + dv);
    assert(vi == (vi / g12) * g12 + ev);
    assert((((av * g4 + bv) * g4 + cv) * g4 + dv) * g12 + ev == vi);
}

pub proof fn lemma_uuid_chars_len(v: u128)
    ensures
        uuid_chars(v).len() == 36,
{
    let vi = v as int;
    lemma_hex_chars_len(vi / (GROUP24 as int), 8);
    lemma_hex_chars_len((vi / (GROUP20 as int)) % (GROUP4 as int), 4);
    lemma_hex_chars_len((vi / (GROUP16 as int)) % (GROUP4 as int), 4);
    lemma_hex_chars_len((vi / (GROUP12 as int)) % (GROUP4 as int), 4);
    lemma_hex_chars_len(vi % (GROUP12 as int), 12);
}

/// Distinct view identifiers have distinct canonical textual forms.
pub proof fn lemma_uuid_chars_injective(a: ViewId, b: ViewId)
    requires
        uuid_chars(a.id) == uuid_chars(b.id),
    ensures
        a == b,
{
    lemma_uuid_round_trip(a);
    lemma_uuid_round_trip(b);
}

} // verus!
