//! Laws on how bytes are read, layer by layer.
//!
//! Each says what a reader gives for all bytes, by what the bytes are or by how two readings
//! relate: what comes of a byte more in front, of a field more in front, of a nested message.

use crate::focus::{focus_of, mode, FocusState};
use crate::input::{
    down_of, fields, first_key, key_event, key_of, keycode_of, last_varint, nested,
};
use crate::wire::lemma_field_bounds;
use crate::wire::lemma_varint_bounds;
use crate::wire::{
    base128, body, delimited, field, rest, skip_run, tag, varint, varint_run, Body, Field,
};
use vstd::prelude::*;

verus! {

/// What lies in front of a cursor is what is left when the bytes behind it are taken away; past
/// the end there is nothing.
pub proof fn law_rest(data: Seq<u8>, pos: int)
    ensures
        0 <= pos <= data.len() ==> data == data.take(pos) + rest(data, pos),
        pos > data.len() ==> rest(data, pos).len() == 0,
{
}

/// Where a run stops: every byte before its last has the high bit set, and its own last byte has
/// it clear unless the bytes or the limit came to an end.
proof fn lemma_run_shape(s: Seq<u8>, limit: nat)
    ensures
        varint_run(s, limit) <= limit,
        varint_run(s, limit) <= s.len(),
        forall|i: int| 0 <= i < varint_run(s, limit) - 1 ==> s[i] >= 0x80,
        varint_run(s, limit) < limit && varint_run(s, limit) < s.len() ==> varint_run(s, limit) > 0
            && s[varint_run(s, limit) - 1] < 0x80,
    decreases limit,
{
    if limit > 0 && s.len() > 0 && s[0] >= 0x80 {
        let r = s.skip(1);
        lemma_run_shape(r, (limit - 1) as nat);
        assert forall|i: int| 0 <= i < varint_run(s, limit) - 1 implies s[i] >= 0x80 by {
            if i > 0 {
                assert(r[i - 1] == s[i]);
            }
        }
    }
}

/// A lower limit only cuts a run short.
proof fn lemma_run_limit(s: Seq<u8>, k: nat)
    ensures
        varint_run(s, k) == if varint_run(s, k + 1) <= k {
            varint_run(s, k + 1)
        } else {
            k
        },
    decreases k,
{
    if k > 0 && s.len() > 0 && s[0] >= 0x80 {
        lemma_run_limit(s.skip(1), (k - 1) as nat);
    }
}

/// A reader of varints looks at no more than ten bytes, and stops behind the first byte below
/// 0x80.
pub proof fn law_varint_run(s: Seq<u8>)
    ensures
        varint_run(s, 10) <= 10,
        varint_run(s, 10) <= s.len(),
        forall|i: int| 0 <= i < varint_run(s, 10) - 1 ==> s[i] >= 0x80,
        varint_run(s, 10) < 10 && varint_run(s, 10) < s.len() ==> varint_run(s, 10) > 0
            && s[varint_run(s, 10) - 1] < 0x80,
{
    lemma_run_shape(s, 10);
}

/// A byte below 0x80 is a varint by itself, and is its own value. Nothing is no varint.
pub proof fn law_varint_of_one_byte(s: Seq<u8>)
    ensures
        s.len() == 0 ==> varint(s) is None,
        s.len() > 0 && s[0] < 0x80 ==> varint(s) == Some((s[0] as u64, 1nat)),
{
    if s.len() > 0 && s[0] < 0x80 {
        assert(varint_run(s, 10) == 1);
        assert(s.take(1).skip(1).len() == 0);
        assert(base128(s.take(1).skip(1)) == 0);
        assert(base128(s.take(1)) == s[0]);
    }
}

/// A byte from 0x80 on puts its low seven bits below a varint that follows it; ten bytes are the
/// most. Without a varint behind it there is none.
pub proof fn law_varint_of_more_bytes(s: Seq<u8>)
    requires
        s.len() > 0,
        s[0] >= 0x80,
    ensures
        match varint(s.skip(1)) {
            Some((w, m)) => if m <= 9 {
                &&& varint(s) matches Some((v, n))
                &&& n == m + 1
                &&& v == (s[0] - 128 + 128 * w) % 0x1_0000_0000_0000_0000
            } else {
                varint(s) is None
            },
            None => varint(s) is None,
        },
{
    let r = s.skip(1);
    lemma_run_limit(r, 9);
    lemma_run_shape(r, 10);
    lemma_run_shape(r, 9);
    let m = varint_run(r, 10);
    let n = varint_run(s, 10);
    assert(n == 1 + varint_run(r, 9));
    if m <= 9 && m > 0 {
        assert(s[n - 1] == r[m - 1]);
        let head = s.take(n as int);
        assert(head.skip(1) =~= r.take(m as int));
        let big = base128(r.take(m as int));
        assert(base128(head) == (s[0] % 128) + 128 * big);
        assert(s[0] % 128 == s[0] - 128);
        let w = big % 0x1_0000_0000_0000_0000;
        let q = big / 0x1_0000_0000_0000_0000;
        assert(128 * big == 128 * w + (128 * q) * 0x1_0000_0000_0000_0000);
    } else if m == 10 {
        assert(s[9] == r[8]);
    }
}

/// A tag is a varint; its lowest three bits are the wire type, the thirty-two above them the
/// field number.
pub proof fn law_tag(s: Seq<u8>)
    ensures
        varint(s) is None ==> tag(s) is None,
        varint(s) matches Some((v, n)) ==> {
            &&& tag(s) matches Some((number, wire, k))
            &&& k == n
            &&& wire < 8
            &&& number * 8 + wire == v % 0x8_0000_0000
        },
{
}

/// A length prefix counts the bytes behind it, which must be there.
pub proof fn law_delimited(s: Seq<u8>)
    ensures
        varint(s) is None ==> delimited(s) is None,
        varint(s) matches Some((v, n)) ==> {
            &&& v <= usize::MAX && n + v <= s.len() ==> delimited(s) == Some((n, v as nat))
            &&& v <= usize::MAX && n + v > s.len() ==> delimited(s) is None
            &&& delimited(s) is Some <==> n + (v as usize) <= s.len()
            &&& delimited(s) matches Some((k, len)) ==> k == n && len == (v as usize)
        },
{
}

/// What a body takes, by wire type: 0 a varint, 1 eight bytes, 2 as many as its prefix counts and
/// the prefix, 5 four bytes. No other wire type has a body, nor has one whose bytes are missing.
pub proof fn law_body(s: Seq<u8>, wire: u64)
    ensures
        wire == 0 ==> (body(s, wire) is Some <==> varint(s) is Some),
        wire == 0 ==> (varint(s) matches Some((v, n)) ==> body(s, wire) == Some(
            (Body::Varint(v), n),
        )),
        wire == 1 && s.len() >= 8 ==> body(s, wire) == Some((Body::Fixed64, 8nat)),
        wire == 1 && s.len() < 8 ==> body(s, wire) is None,
        wire == 2 ==> (body(s, wire) is Some <==> delimited(s) is Some),
        wire == 2 ==> (delimited(s) matches Some((n, len)) ==> body(s, wire) == Some(
            (Body::Delimited, n + len),
        )),
        wire == 5 && s.len() >= 4 ==> body(s, wire) == Some((Body::Fixed32, 4nat)),
        wire == 5 && s.len() < 4 ==> body(s, wire) is None,
        wire == 3 || wire == 4 || wire > 5 ==> body(s, wire) is None,
{
}

/// A cursor that skips a body moves over all of it; over a malformed one it moves only where a
/// varint was looked at.
pub proof fn law_skip_run(s: Seq<u8>, wire: u64)
    ensures
        body(s, wire) matches Some((_, n)) ==> skip_run(s, wire) == n,
        body(s, wire) is None && (wire == 0 || wire == 2) ==> skip_run(s, wire) == varint_run(
            s,
            10,
        ),
        body(s, wire) is None && wire != 0 && wire != 2 ==> skip_run(s, wire) == 0,
{
}

/// A field is a tag and then a body, and what follows the field is what follows both.
pub proof fn law_field(s: Seq<u8>)
    ensures
        tag(s) is None ==> field(s) is None,
        tag(s) matches Some((number, wire, n)) ==> {
            &&& body(s.skip(n as int), wire) is None ==> field(s) is None
            &&& body(s.skip(n as int), wire) matches Some((b, m)) ==> {
                &&& field(s) matches Some((f, r))
                &&& f.number == number
                &&& f.body == b
                &&& s == s.take((n + m) as int) + r
                &&& r.len() + n + m == s.len()
            }
        },
{
    lemma_varint_bounds(s);
    if let Some((_, wire, n)) = tag(s) {
        crate::wire::lemma_body_bounds(s.skip(n as int), wire);
    }
}

/// A walk over fields goes on exactly while more bytes are left than lie behind the message, and
/// takes the field in front first.
pub proof fn law_walk(s: Seq<u8>, tail: nat)
    ensures
        s.len() <= tail ==> fields(s, tail) == Some((Seq::<Field>::empty(), s)),
        s.len() > tail && field(s) is None ==> fields(s, tail) is None,
        s.len() > tail ==> (field(s) matches Some((f, r)) ==> {
            &&& fields(s, tail) is Some <==> fields(r, tail) is Some
            &&& fields(r, tail) matches Some((fs, left)) ==> {
                &&& fields(s, tail) matches Some((gs, end))
                &&& gs.len() == fs.len() + 1
                &&& gs[0] == f
                &&& forall|i: int| 0 <= i < fs.len() ==> gs[i + 1] == #[trigger] fs[i]
                &&& end == left
            }
        }),
{
}

/// The place `i` holds the last varint field of a number.
pub open spec fn is_last_varint(fs: Seq<Field>, number: u32, i: int, v: u64) -> bool {
    &&& 0 <= i < fs.len()
    &&& fs[i].number == number
    &&& fs[i].body == Body::Varint(v)
    &&& forall|k: int|
        i < k < fs.len() ==> !((#[trigger] fs[k]).number == number && fs[k].body is Varint)
}

/// Of several varint fields with one number the last counts; without any there is no value.
pub proof fn law_last_varint(fs: Seq<Field>, number: u32)
    ensures
        forall|i: int, v: u64|
            is_last_varint(fs, number, i, v) ==> last_varint(fs, number) == Some(v),
        (forall|k: int|
            0 <= k < fs.len() ==> !((#[trigger] fs[k]).number == number && fs[k].body is Varint))
            ==> last_varint(fs, number) is None,
    decreases fs.len(),
{
    if fs.len() > 0 {
        let front = fs.drop_last();
        law_last_varint(front, number);
        assert forall|i: int, v: u64| is_last_varint(fs, number, i, v) implies last_varint(
            fs,
            number,
        ) == Some(v) by {
            if i < fs.len() - 1 {
                assert(!(fs[fs.len() - 1].number == number && fs[fs.len() - 1].body is Varint));
                assert forall|k: int| i < k < front.len() implies !((#[trigger] front[k]).number
                    == number && front[k].body is Varint) by {
                    assert(front[k] == fs[k]);
                }
                assert(is_last_varint(front, number, i, v));
            }
        }
        if forall|k: int|
            0 <= k < fs.len() ==> !((#[trigger] fs[k]).number == number && fs[k].body is Varint) {
            assert forall|k: int| 0 <= k < front.len() implies !((#[trigger] front[k]).number
                == number && front[k].body is Varint) by {
                assert(front[k] == fs[k]);
            }
            assert(!(fs[fs.len() - 1].number == number && fs[fs.len() - 1].body is Varint));
        }
    }
}

/// A key has the last value of field 1 as its keycode, in thirty-two bits, and is down if the
/// last value of field 2 is not 0.
pub proof fn law_key_of(fs: Seq<Field>, i: int, v: u64, j: int, w: u64)
    requires
        is_last_varint(fs, 1, i, v),
        is_last_varint(fs, 2, j, w),
    ensures
        key_of(fs) matches Some((keycode, down)) && keycode == v % 0x1_0000_0000 && (down <==> w
            != 0),
        keycode_of(fs) matches Some(keycode) && keycode == v % 0x1_0000_0000,
        down_of(fs) == Some(w != 0),
{
    law_last_varint(fs, 1);
    law_last_varint(fs, 2);
}

/// Without a keycode, or without word whether it is down, there is no key.
pub proof fn law_no_key_of(fs: Seq<Field>, number: u32)
    requires
        number == 1 || number == 2,
        forall|k: int|
            0 <= k < fs.len() ==> !((#[trigger] fs[k]).number == number && fs[k].body is Varint),
    ensures
        key_of(fs) is None,
        number == 1 ==> keycode_of(fs) is None,
        number == 2 ==> down_of(fs) is None,
{
    law_last_varint(fs, number);
}

/// A nested message lies behind its length prefix, and as many bytes are behind it as the prefix
/// does not count.
pub proof fn law_nested(s: Seq<u8>)
    ensures
        delimited(s) is None ==> nested(s) is None,
        delimited(s) matches Some((n, len)) ==> {
            &&& nested(s) matches Some((inner, tail))
            &&& s == s.take(n as int) + inner
            &&& n + len + tail == s.len()
        },
{
    lemma_varint_bounds(s);
}

/// The walk of a `KeyEvent`: it ends where the event ends; a key that is complete ends it; a
/// key that is not, and any other field, is passed over; what is malformed stops everything.
pub proof fn law_key_event(s: Seq<u8>, tail: nat)
    ensures
        s.len() <= tail ==> key_event(s, tail) == Some((None::<(u32, bool)>, s)),
        s.len() > tail && tag(s) is None ==> key_event(s, tail) is None,
        s.len() > tail ==> (tag(s) matches Some((number, wire, n)) ==> {
            let m = nested(s.skip(n as int));
            &&& number == 1 && wire == 2 && m is None ==> key_event(s, tail) is None
            &&& number == 1 && wire == 2 ==> (m matches Some((inner, inner_tail)) ==> {
                &&& fields(inner, inner_tail) is None ==> key_event(s, tail) is None
                &&& fields(inner, inner_tail) matches Some((fs, left)) ==> {
                    &&& key_of(fs) is Some ==> key_event(s, tail) == Some((key_of(fs), left))
                    &&& key_of(fs) is None ==> key_event(s, tail) == key_event(left, tail)
                }
            })
            &&& !(number == 1 && wire == 2) && field(s) is None ==> key_event(s, tail) is None
            &&& !(number == 1 && wire == 2) ==> (field(s) matches Some((_, r)) ==> key_event(
                s,
                tail,
            ) == key_event(r, tail))
        }),
{
}

/// The walk of an `InputReport`: it ends with the bytes; an event with a key ends it; an event
/// without one, and any other field, is passed over; what is malformed stops everything.
pub proof fn law_first_key(s: Seq<u8>)
    ensures
        s.len() == 0 ==> first_key(s) is None,
        tag(s) is None ==> first_key(s) is None,
        tag(s) matches Some((number, wire, n)) ==> {
            let m = nested(s.skip(n as int));
            &&& number == 4 && wire == 2 && m is None ==> first_key(s) is None
            &&& number == 4 && wire == 2 ==> (m matches Some((inner, inner_tail)) ==> {
                &&& key_event(inner, inner_tail) is None ==> first_key(s) is None
                &&& key_event(inner, inner_tail) matches Some((key, left)) ==> {
                    &&& key is Some ==> first_key(s) == key
                    &&& key is None ==> first_key(s) == first_key(left)
                }
            })
            &&& !(number == 4 && wire == 2) && field(s) is None ==> first_key(s) is None
            &&& !(number == 4 && wire == 2) ==> (field(s) matches Some((_, r)) ==> first_key(s)
                == first_key(r))
        },
{
    lemma_varint_bounds(s);
}

/// Mode 1 is projected focus, mode 2 native focus, and no other mode is any.
pub proof fn law_mode(v: u64)
    ensures
        v == 1 ==> mode(v) == Some(FocusState::Projected),
        v == 2 ==> mode(v) == Some(FocusState::Native),
        v != 1 && v != 2 ==> mode(v) is None,
{
}

/// The focus in a notification: the first varint field with number 2 decides, the fields before
/// it are passed over, and what is malformed on the way stops everything.
pub proof fn law_focus_of(s: Seq<u8>)
    ensures
        s.len() == 0 ==> focus_of(s) is None,
        field(s) is None ==> focus_of(s) is None,
        field(s) matches Some((f, r)) ==> {
            &&& f.number == 2 && f.body == Body::Varint(1) ==> focus_of(s) == Some(
                FocusState::Projected,
            )
            &&& f.number == 2 && f.body == Body::Varint(2) ==> focus_of(s) == Some(
                FocusState::Native,
            )
            &&& f.number == 2 && f.body is Varint && f.body->Varint_0 != 1 && f.body->Varint_0 != 2
                ==> focus_of(s) is None
            &&& !(f.number == 2 && f.body is Varint) ==> focus_of(s) == focus_of(r)
        },
{
    lemma_field_bounds(s);
}

} // verus!
