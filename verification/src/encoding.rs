//! How messages are written, and the laws that what is written is read back.
//!
//! The hook writes no messages but its two fixed ones, so the writer exists in specifications
//! only.

use crate::focus::{focus_of, mode, FocusState};
use crate::input::{fields, first_key, key_event, key_of, last_varint, nested};
use crate::packet::{
    key_down, native_request, SHORT_PRESS_KEY_DOWN, VIDEO_FOCUS_NATIVE_PAYLOAD,
};
use crate::session::{reported_key, KEYCODE_TRIGGER};
use crate::wire::lemma_field_bounds;
use crate::wire::{
    base128, delimited, field, group_weight, tag, varint, varint_run, Body, Field,
    MAX_VARINT_BYTES,
};
use vstd::prelude::*;

verus! {

/// A number as a varint: groups of seven bits, the least significant first, with the high bit set
/// in all bytes but the last.
pub open spec fn encode_varint(v: nat) -> Seq<u8>
    decreases v,
{
    if v < 128 {
        seq![v as u8]
    } else {
        seq![(v % 128 + 128) as u8] + encode_varint(v / 128)
    }
}

/// The tag of a field.
pub open spec fn encode_tag(number: u32, wire: u64) -> Seq<u8> {
    encode_varint((number * 8 + wire) as nat)
}

/// A field that holds a varint.
pub open spec fn encode_varint_field(number: u32, v: u64) -> Seq<u8> {
    encode_tag(number, 0) + encode_varint(v as nat)
}

/// A field that holds bytes, with their length in front.
pub open spec fn encode_delimited_field(number: u32, bytes: Seq<u8>) -> Seq<u8> {
    encode_tag(number, 2) + (encode_varint(bytes.len()) + bytes)
}

/// A `Key`.
pub open spec fn encode_key(keycode: u32, down: bool, metastate: u32) -> Seq<u8> {
    encode_varint_field(1, keycode as u64) + (encode_varint_field(
        2,
        if down {
            1
        } else {
            0
        },
    ) + encode_varint_field(3, metastate as u64))
}

/// A `KeyEvent` with one key, followed by further bytes.
pub open spec fn encode_key_event(key: Seq<u8>, more: Seq<u8>) -> Seq<u8> {
    encode_delimited_field(1, key) + more
}

/// An `InputReport` with a timestamp and one `KeyEvent`, followed by further bytes.
pub open spec fn encode_report(timestamp: u64, event: Seq<u8>, more: Seq<u8>) -> Seq<u8> {
    encode_varint_field(1, timestamp) + (encode_delimited_field(4, event) + more)
}

/// A number below 128 to the power `k` takes no more than `k` bytes, or one.
proof fn lemma_encoded_length(v: nat, k: nat)
    requires
        v < group_weight(k),
    ensures
        1 <= encode_varint(v).len(),
        encode_varint(v).len() <= k || encode_varint(v).len() == 1,
    decreases k,
{
    if v >= 128 {
        assert(k > 0);
        lemma_encoded_length(v / 128, (k - 1) as nat);
        if k == 1 {
            assert(group_weight(1) == 128 * group_weight(0));
        }
    }
}

/// The encoding of a number is one run of a reader that may take that many bytes, spells the
/// number, and ends in a byte with a clear high bit.
proof fn lemma_encoded_run(v: nat, more: Seq<u8>, limit: nat)
    requires
        encode_varint(v).len() <= limit,
    ensures
        varint_run(encode_varint(v) + more, limit) == encode_varint(v).len(),
        encode_varint(v).len() >= 1,
        encode_varint(v).last() < 0x80,
        base128(encode_varint(v)) == v,
    decreases v,
{
    let e = encode_varint(v);
    if v < 128 {
        assert(base128(e.skip(1)) == 0);
    } else {
        let r = encode_varint(v / 128);
        assert(e.skip(1) =~= r);
        assert((e + more).skip(1) =~= r + more);
        lemma_encoded_run(v / 128, more, (limit - 1) as nat);
        assert((v % 128 + 128) % 128 == v % 128);
    }
}

/// Reading what was written: the varint of any number of sixty-four bits is read back, whatever
/// follows it.
pub proof fn law_varint_round_trip(v: u64, more: Seq<u8>)
    ensures
        varint(encode_varint(v as nat) + more) == Some((v, encode_varint(v as nat).len())),
        encode_varint(v as nat).len() <= MAX_VARINT_BYTES,
{
    reveal_with_fuel(group_weight, 11);
    let e = encode_varint(v as nat);
    lemma_encoded_length(v as nat, 10);
    lemma_encoded_run(v as nat, more, 10);
    assert((e + more).take(e.len() as int) =~= e);
}

/// A tag is read back, whatever follows it.
pub proof fn law_tag_round_trip(number: u32, wire: u64, more: Seq<u8>)
    requires
        wire < 8,
    ensures
        tag(encode_tag(number, wire) + more) == Some(
            (number, wire, encode_tag(number, wire).len()),
        ),
{
    law_varint_round_trip((number * 8 + wire) as u64, more);
}

/// A varint field is read back, whatever follows it.
pub proof fn law_varint_field_round_trip(number: u32, v: u64, more: Seq<u8>)
    ensures
        field(encode_varint_field(number, v) + more) == Some(
            (Field { number, body: Body::Varint(v) }, more),
        ),
{
    let t = encode_tag(number, 0);
    let e = encode_varint(v as nat);
    let s = encode_varint_field(number, v) + more;
    assert(s =~= t + (e + more));
    law_tag_round_trip(number, 0, e + more);
    law_varint_round_trip(v, more);
    assert(s.skip(t.len() as int) =~= e + more);
    assert(s.skip((t.len() + e.len()) as int) =~= more);
}

/// A length prefix is read back, with the bytes that it announces behind it.
proof fn lemma_prefix_round_trip(bytes: Seq<u8>, more: Seq<u8>)
    requires
        bytes.len() <= usize::MAX,
    ensures
        delimited(encode_varint(bytes.len()) + bytes + more) == Some(
            (encode_varint(bytes.len()).len(), bytes.len()),
        ),
        nested(encode_varint(bytes.len()) + bytes + more) == Some((bytes + more, more.len())),
{
    let e = encode_varint(bytes.len());
    law_varint_round_trip(bytes.len() as u64, bytes + more);
    assert(e + bytes + more =~= e + (bytes + more));
    assert((e + bytes + more).skip(e.len() as int) =~= bytes + more);
}

/// A field that holds bytes is read back, whatever follows it.
pub proof fn law_delimited_field_round_trip(number: u32, bytes: Seq<u8>, more: Seq<u8>)
    requires
        bytes.len() <= usize::MAX,
    ensures
        field(encode_delimited_field(number, bytes) + more) == Some(
            (Field { number, body: Body::Delimited }, more),
        ),
{
    let t = encode_tag(number, 2);
    let e = encode_varint(bytes.len());
    let s = encode_delimited_field(number, bytes) + more;
    assert(s =~= t + (e + bytes + more));
    law_tag_round_trip(number, 2, e + bytes + more);
    lemma_prefix_round_trip(bytes, more);
    assert(s.skip(t.len() as int) =~= e + bytes + more);
    assert(s.skip((t.len() + (e.len() + bytes.len())) as int) =~= more);
}

/// A walk over fields takes a varint field first, and goes on behind it.
proof fn lemma_walk_takes_a_varint_field(number: u32, v: u64, more: Seq<u8>, tail: nat)
    requires
        tail <= more.len(),
    ensures
        fields(encode_varint_field(number, v) + more, tail) == (match fields(more, tail) {
            Some((fs, left)) => Some(
                (seq![Field { number, body: Body::Varint(v) }] + fs, left),
            ),
            None => None,
        }),
{
    law_varint_field_round_trip(number, v, more);
    lemma_encoded_nonempty(number, 0);
}

/// The fields of a `Key` make that key.
proof fn lemma_fields_make_the_key(keycode: u32, flag: u64, metastate: u64, fs: Seq<Field>)
    requires
        fs == seq![
            Field { number: 1, body: Body::Varint(keycode as u64) },
            Field { number: 2, body: Body::Varint(flag) },
            Field { number: 3, body: Body::Varint(metastate) },
        ],
    ensures
        key_of(fs) == Some((keycode, flag != 0)),
{
    let two = fs.drop_last();
    assert(last_varint(two, 2) == Some(flag));
    assert(last_varint(two.drop_last(), 1) == Some(keycode as u64));
    assert(last_varint(two, 1) == Some(keycode as u64));
}

/// The fields of a `Key` are read back, whatever follows it.
#[verifier::spinoff_prover]
proof fn lemma_key_round_trip(keycode: u32, down: bool, metastate: u32, more: Seq<u8>)
    ensures
        fields(encode_key(keycode, down, metastate) + more, more.len()) matches Some((fs, left))
            && key_of(fs) == Some((keycode, down)) && left == more,
{
    let flag: u64 = if down {
        1
    } else {
        0
    };
    let e1 = encode_varint_field(1, keycode as u64);
    let e2 = encode_varint_field(2, flag);
    let e3 = encode_varint_field(3, metastate as u64);
    let f1 = Field { number: 1, body: Body::Varint(keycode as u64) };
    let f2 = Field { number: 2, body: Body::Varint(flag) };
    let f3 = Field { number: 3, body: Body::Varint(metastate as u64) };
    let tail = more.len();
    assert(encode_key(keycode, down, metastate) + more =~= e1 + (e2 + (e3 + more)));
    lemma_walk_takes_a_varint_field(3, metastate as u64, more, tail);
    lemma_walk_takes_a_varint_field(2, flag, e3 + more, tail);
    lemma_walk_takes_a_varint_field(1, keycode as u64, e2 + (e3 + more), tail);
    let none = Seq::<Field>::empty();
    assert(fields(more, tail) == Some((none, more)));
    let fs = seq![f1] + (seq![f2] + (seq![f3] + none));
    assert(fs =~= seq![f1, f2, f3]);
    lemma_fields_make_the_key(keycode, flag, metastate as u64, fs);
}

/// A tag takes at least one byte.
proof fn lemma_encoded_nonempty(number: u32, wire: u64)
    requires
        wire < 8,
    ensures
        encode_tag(number, wire).len() >= 1,
{
    law_tag_round_trip(number, wire, Seq::empty());
    lemma_encoded_run(
        (number * 8 + wire) as nat,
        Seq::empty(),
        encode_tag(number, wire).len(),
    );
}

/// A field that is no key event makes no difference to the key of a report.
pub proof fn law_other_fields_are_skipped(s: Seq<u8>)
    requires
        field(s) matches Some((f, _)) && !(f.number == 4 && f.body is Delimited),
    ensures
        first_key(s) == first_key(field(s).unwrap().1),
{
    assert(s.len() > 0) by {
        lemma_field_bounds(s);
    }
}

/// A field that holds a message is entered: its tag is read back, and behind the length prefix
/// lies the message with all that follows.
pub proof fn lemma_nested_field(number: u32, bytes: Seq<u8>, more: Seq<u8>)
    requires
        bytes.len() <= usize::MAX,
    ensures
        ({
            let s = encode_delimited_field(number, bytes) + more;
            let n = encode_tag(number, 2).len();
            &&& tag(s) == Some((number, 2u64, n))
            &&& nested(s.skip(n as int)) == Some((bytes + more, more.len()))
            &&& s.len() > more.len()
        }),
{
    let t = encode_tag(number, 2);
    let prefixed = encode_varint(bytes.len()) + bytes + more;
    let s = encode_delimited_field(number, bytes) + more;
    assert(s =~= t + prefixed);
    law_tag_round_trip(number, 2, prefixed);
    lemma_encoded_nonempty(number, 2);
    assert(s.skip(t.len() as int) =~= prefixed);
    lemma_prefix_round_trip(bytes, more);
}

/// The first key of an event is read back.
proof fn lemma_event_round_trip(
    keycode: u32,
    down: bool,
    metastate: u32,
    more_in_event: Seq<u8>,
    more: Seq<u8>,
)
    requires
        encode_key(keycode, down, metastate).len() <= usize::MAX,
    ensures
        key_event(
            encode_key_event(encode_key(keycode, down, metastate), more_in_event) + more,
            more.len(),
        ) == Some((Some((keycode, down)), more_in_event + more)),
{
    let key = encode_key(keycode, down, metastate);
    let behind = more_in_event + more;
    assert(encode_key_event(key, more_in_event) + more =~= encode_delimited_field(1, key)
        + behind);
    lemma_nested_field(1, key, behind);
    lemma_key_round_trip(keycode, down, metastate, behind);
}

/// The first key counts: a report gives back the keycode of the first key that was put in, and
/// whether it was down, whatever follows that key in its event, and whatever follows the event.
#[verifier::spinoff_prover]
pub proof fn law_first_key_is_read_back(
    timestamp: u64,
    keycode: u32,
    down: bool,
    metastate: u32,
    more_in_event: Seq<u8>,
    more: Seq<u8>,
)
    requires
        encode_key_event(encode_key(keycode, down, metastate), more_in_event).len()
            <= usize::MAX,
    ensures
        first_key(
            encode_report(
                timestamp,
                encode_key_event(encode_key(keycode, down, metastate), more_in_event),
                more,
            ),
        ) == Some((keycode, down)),
{
    let event = encode_key_event(encode_key(keycode, down, metastate), more_in_event);
    let s = encode_report(timestamp, event, more);
    let r = encode_delimited_field(4, event) + more;
    law_varint_field_round_trip(1, timestamp, r);
    law_other_fields_are_skipped(s);
    lemma_nested_field(4, event, more);
    lemma_event_round_trip(keycode, down, metastate, more_in_event, more);
    assert(first_key(r) == Some((keycode, down)));
}

/// A notification gives back the focus mode that was put in first, whatever follows it.
pub proof fn law_focus_is_read_back(v: u64, more: Seq<u8>)
    ensures
        focus_of(encode_varint_field(2, v) + more) == mode(v),
{
    law_varint_field_round_trip(2, v, more);
    lemma_encoded_nonempty(2, 0);
}

/// A field that is no focus mode makes no difference to the focus in a notification.
pub proof fn law_other_fields_leave_focus(s: Seq<u8>)
    requires
        field(s) matches Some((f, _)) && !(f.number == 2 && f.body is Varint),
    ensures
        focus_of(s) == focus_of(field(s).unwrap().1),
{
    assert(s.len() > 0) by {
        lemma_field_bounds(s);
    }
}

/// The key press that the hook sends is what it is meant to be: behind the message id, a report
/// with timestamp 0 and the trigger key, down, with metastate 0.
pub proof fn law_key_down_spells_the_trigger(channel: u8)
    ensures
        key_down(channel).payload == seq![0x80u8, 0x01u8] + encode_report(
            0,
            encode_key_event(encode_key(KEYCODE_TRIGGER, true, 0), Seq::empty()),
            Seq::empty(),
        ),
        reported_key(key_down(channel)) == Some((KEYCODE_TRIGGER, true)),
{
    reveal_with_fuel(encode_varint, 4);
    let none = Seq::<u8>::empty();
    let key = encode_key(KEYCODE_TRIGGER, true, 0);
    assert(key =~= seq![0x08u8, 0x84u8, 0x80u8, 0x04u8, 0x10u8, 0x01u8, 0x18u8, 0x00u8]);
    let event = encode_key_event(key, none);
    assert(event =~= seq![
        0x0Au8,
        0x08u8,
        0x08u8,
        0x84u8,
        0x80u8,
        0x04u8,
        0x10u8,
        0x01u8,
        0x18u8,
        0x00u8,
    ]);
    let report = encode_report(0, event, none);
    assert(SHORT_PRESS_KEY_DOWN@ =~= seq![0x80u8, 0x01u8] + report);
    law_first_key_is_read_back(0, KEYCODE_TRIGGER, true, 0, none, none);
    assert(key_down(channel).payload.skip(2) =~= report);
}

/// The focus request that the hook sends is what it is meant to be: behind the message id, the
/// mode for native focus in field 2 and the reason 0 in field 3.
pub proof fn law_native_request_spells_native(channel: u8)
    ensures
        native_request(channel).payload == seq![0x80u8, 0x07u8] + (encode_varint_field(2, 2)
            + encode_varint_field(3, 0)),
        mode(2) == Some(FocusState::Native),
{
    assert(VIDEO_FOCUS_NATIVE_PAYLOAD@ =~= seq![0x80u8, 0x07u8] + (encode_varint_field(2, 2)
        + encode_varint_field(3, 0)));
}

} // verus!
