//! Laws on whole messages: whatever other fields stand around them, the first complete key of a
//! report and the first focus mode of a notification are found, in the bytes and in the packets
//! that carry them.

use crate::encoding::law_delimited_field_round_trip;
use crate::encoding::law_tag_round_trip;
use crate::encoding::law_varint_field_round_trip;
use crate::encoding::lemma_nested_field;
use crate::encoding::{
    encode_delimited_field, encode_key, encode_key_event, encode_report, encode_tag,
    encode_varint_field,
};
use crate::focus::{focus_of, FocusState};
use crate::input::{fields, first_key, key_event, key_of};
use crate::packet::{PacketView, ProxyType};
use crate::reading::is_last_varint;
use crate::reading::law_field;
use crate::reading::law_focus_of;
use crate::reading::law_key_of;
use crate::reading::law_no_key_of;
use crate::session::{announced_focus, is_notification, reported_key};
use crate::wire::lemma_field_bounds;
use crate::wire::{body, field, tag, Body, Field};
use vstd::prelude::*;

verus! {

/// A field to be written, with what it holds.
pub enum Item {
    Varint { number: u32, v: u64 },
    Fixed64 { number: u32, bytes: Seq<u8> },
    Bytes { number: u32, bytes: Seq<u8> },
    Fixed32 { number: u32, bytes: Seq<u8> },
}

/// The field has the size that its kind asks for.
pub open spec fn is_item(item: Item) -> bool {
    match item {
        Item::Varint { .. } => true,
        Item::Fixed64 { bytes, .. } => bytes.len() == 8,
        Item::Bytes { bytes, .. } => bytes.len() <= usize::MAX,
        Item::Fixed32 { bytes, .. } => bytes.len() == 4,
    }
}

/// The field as it is read.
pub open spec fn as_field(item: Item) -> Field {
    match item {
        Item::Varint { number, v } => Field { number, body: Body::Varint(v) },
        Item::Fixed64 { number, .. } => Field { number, body: Body::Fixed64 },
        Item::Bytes { number, .. } => Field { number, body: Body::Delimited },
        Item::Fixed32 { number, .. } => Field { number, body: Body::Fixed32 },
    }
}

/// The field as it is written.
pub open spec fn encode_item(item: Item) -> Seq<u8> {
    match item {
        Item::Varint { number, v } => encode_varint_field(number, v),
        Item::Fixed64 { number, bytes } => encode_tag(number, 1) + bytes,
        Item::Bytes { number, bytes } => encode_delimited_field(number, bytes),
        Item::Fixed32 { number, bytes } => encode_tag(number, 5) + bytes,
    }
}

/// Fields one behind the other.
pub open spec fn encode_items(items: Seq<Item>) -> Seq<u8>
    decreases items.len(),
{
    if items.len() == 0 {
        Seq::empty()
    } else {
        encode_item(items[0]) + encode_items(items.skip(1))
    }
}

/// All fields have the sizes that their kinds ask for.
pub open spec fn are_items(items: Seq<Item>) -> bool {
    forall|i: int| 0 <= i < items.len() ==> is_item(#[trigger] items[i])
}

/// None of the fields holds a nested message under this number.
pub open spec fn no_message(items: Seq<Item>, number: u32) -> bool {
    forall|i: int|
        0 <= i < items.len() ==> !((#[trigger] items[i]) matches Item::Bytes { number: k, .. } && k
            == number)
}

/// None of the fields holds a varint under this number.
pub open spec fn no_varint(items: Seq<Item>, number: u32) -> bool {
    forall|i: int|
        0 <= i < items.len() ==> !((#[trigger] items[i]) matches Item::Varint { number: k, .. }
            && k == number)
}

/// The place `i` holds the last varint under this number.
pub open spec fn holds_last(items: Seq<Item>, number: u32, i: int, v: u64) -> bool {
    &&& 0 <= i < items.len()
    &&& items[i] == Item::Varint { number, v }
    &&& no_varint(items.skip(i + 1), number)
}

/// Every field is read back, whatever follows it.
pub proof fn law_item_round_trip(item: Item, more: Seq<u8>)
    requires
        is_item(item),
    ensures
        field(encode_item(item) + more) == Some((as_field(item), more)),
{
    match item {
        Item::Varint { number, v } => {
            law_varint_field_round_trip(number, v, more);
        },
        Item::Bytes { number, bytes } => {
            law_delimited_field_round_trip(number, bytes, more);
        },
        Item::Fixed64 { number, bytes } => {
            lemma_fixed_round_trip(number, 1, bytes, more);
        },
        Item::Fixed32 { number, bytes } => {
            lemma_fixed_round_trip(number, 5, bytes, more);
        },
    }
}

/// A field of fixed size is read back.
proof fn lemma_fixed_round_trip(number: u32, wire: u64, bytes: Seq<u8>, more: Seq<u8>)
    requires
        wire == 1 && bytes.len() == 8 || wire == 5 && bytes.len() == 4,
    ensures
        field(encode_tag(number, wire) + bytes + more) == Some(
            (
                Field {
                    number,
                    body: if wire == 1 {
                        Body::Fixed64
                    } else {
                        Body::Fixed32
                    },
                },
                more,
            ),
        ),
{
    let t = encode_tag(number, wire);
    let s = t + bytes + more;
    assert(s =~= t + (bytes + more));
    law_tag_round_trip(number, wire, bytes + more);
    assert(s.skip(t.len() as int) =~= bytes + more);
    assert(s.skip((t.len() + bytes.len()) as int) =~= more);
}

/// A run of fields splits behind its first.
proof fn lemma_items_split(items: Seq<Item>, more: Seq<u8>)
    requires
        items.len() > 0,
        are_items(items),
    ensures
        encode_items(items) + more == encode_item(items[0]) + (encode_items(items.skip(1)) + more),
        are_items(items.skip(1)),
        field(encode_items(items) + more) == Some(
            (as_field(items[0]), encode_items(items.skip(1)) + more),
        ),
        (encode_items(items) + more).len() > (encode_items(items.skip(1)) + more).len(),
{
    let r = encode_items(items.skip(1)) + more;
    assert(encode_items(items) + more =~= encode_item(items[0]) + r);
    assert forall|i: int| 0 <= i < items.skip(1).len() implies is_item(
        #[trigger] items.skip(1)[i],
    ) by {
        assert(is_item(items[i + 1]));
    }
    assert(is_item(items[0]));
    law_item_round_trip(items[0], r);
    lemma_field_bounds(encode_items(items) + more);
}

/// A walk over written fields reads them back, one by one and in order.
pub proof fn law_walk_reads_back(items: Seq<Item>, more: Seq<u8>)
    requires
        are_items(items),
    ensures
        fields(encode_items(items) + more, more.len()) matches Some((fs, left)) && fs.len()
            == items.len() && left == more && forall|i: int|
            0 <= i < items.len() ==> #[trigger] fs[i] == as_field(items[i]),
    decreases items.len(),
{
    if items.len() == 0 {
        assert(encode_items(items) + more =~= more);
    } else {
        lemma_items_split(items, more);
        law_walk_reads_back(items.skip(1), more);
        let r = encode_items(items.skip(1)) + more;
        let (gs, _) = fields(r, more.len()).unwrap();
        let (fs, _) = fields(encode_items(items) + more, more.len()).unwrap();
        assert(fs == seq![as_field(items[0])] + gs);
        assert forall|i: int| 0 <= i < items.len() implies #[trigger] fs[i] == as_field(
            items[i],
        ) by {
            if i > 0 {
                assert(fs[i] == gs[i - 1]);
                assert(items.skip(1)[i - 1] == items[i]);
            }
        }
    }
}

/// The last varint among the written fields is the last among those that are read.
proof fn lemma_last_carries_over(items: Seq<Item>, fs: Seq<Field>, number: u32, i: int, v: u64)
    requires
        fs.len() == items.len(),
        forall|k: int| 0 <= k < items.len() ==> #[trigger] fs[k] == as_field(items[k]),
        holds_last(items, number, i, v),
    ensures
        is_last_varint(fs, number, i, v),
{
    assert(fs[i] == as_field(items[i]));
    assert forall|k: int| i < k < fs.len() implies !((#[trigger] fs[k]).number == number
        && fs[k].body is Varint) by {
        assert(fs[k] == as_field(items[k]));
        assert(items.skip(i + 1)[k - i - 1] == items[k]);
    }
}

/// A field that is no message under the number in question has another tag.
proof fn lemma_other_tag(item: Item, number: u32, more: Seq<u8>)
    requires
        is_item(item),
        !(item matches Item::Bytes { number: k, .. } && k == number),
    ensures
        tag(encode_item(item) + more) matches Some((k, wire, _)) && !(k == number && wire == 2),
{
    let s = encode_item(item) + more;
    law_item_round_trip(item, more);
    law_field(s);
}

/// Other fields in front of a report make no difference to its key.
pub proof fn law_report_skips_items(items: Seq<Item>, s: Seq<u8>)
    requires
        are_items(items),
        no_message(items, 4),
    ensures
        first_key(encode_items(items) + s) == first_key(s),
    decreases items.len(),
{
    if items.len() == 0 {
        assert(encode_items(items) + s =~= s);
    } else {
        lemma_items_split(items, s);
        let r = encode_items(items.skip(1)) + s;
        assert(is_item(items[0]));
        lemma_other_tag(items[0], 4, r);
        assert forall|i: int| 0 <= i < items.skip(1).len() implies !(
        (#[trigger] items.skip(1)[i]) matches Item::Bytes { number: k, .. } && k == 4) by {
            assert(items.skip(1)[i] == items[i + 1]);
        }
        law_report_skips_items(items.skip(1), s);
    }
}

/// Other fields in front of the rest of a key event make no difference to its key.
pub proof fn law_event_skips_items(items: Seq<Item>, s: Seq<u8>, tail: nat)
    requires
        are_items(items),
        no_message(items, 1),
        tail <= s.len(),
    ensures
        key_event(encode_items(items) + s, tail) == key_event(s, tail),
    decreases items.len(),
{
    if items.len() == 0 {
        assert(encode_items(items) + s =~= s);
    } else {
        lemma_items_split(items, s);
        let r = encode_items(items.skip(1)) + s;
        assert(is_item(items[0]));
        lemma_other_tag(items[0], 1, r);
        assert forall|i: int| 0 <= i < items.skip(1).len() implies !(
        (#[trigger] items.skip(1)[i]) matches Item::Bytes { number: k, .. } && k == 1) by {
            assert(items.skip(1)[i] == items[i + 1]);
        }
        law_event_skips_items(items.skip(1), s, tail);
    }
}

/// A report without a key event has no key.
pub proof fn law_no_event_no_key(items: Seq<Item>)
    requires
        are_items(items),
        no_message(items, 4),
    ensures
        first_key(encode_items(items)) is None,
{
    law_report_skips_items(items, Seq::empty());
    assert(encode_items(items) + Seq::<u8>::empty() =~= encode_items(items));
}

/// An event without a key is passed over.
pub proof fn law_event_without_key_is_passed_over(items: Seq<Item>, s: Seq<u8>)
    requires
        are_items(items),
        no_message(items, 1),
        encode_items(items).len() <= usize::MAX,
    ensures
        first_key(encode_delimited_field(4, encode_items(items)) + s) == first_key(s),
{
    let event = encode_items(items);
    lemma_nested_field(4, event, s);
    law_event_skips_items(items, s, s.len());
}

/// A key that lacks its keycode or whether it is down is passed over.
pub proof fn law_incomplete_key_is_passed_over(
    key: Seq<Item>,
    number: u32,
    s: Seq<u8>,
    tail: nat,
)
    requires
        are_items(key),
        number == 1 || number == 2,
        no_varint(key, number),
        encode_items(key).len() <= usize::MAX,
        tail <= s.len(),
    ensures
        key_event(encode_delimited_field(1, encode_items(key)) + s, tail) == key_event(s, tail),
{
    lemma_nested_field(1, encode_items(key), s);
    law_walk_reads_back(key, s);
    let (fs, _) = fields(encode_items(key) + s, s.len()).unwrap();
    assert forall|k: int| 0 <= k < fs.len() implies !((#[trigger] fs[k]).number == number
        && fs[k].body is Varint) by {
        assert(fs[k] == as_field(key[k]));
    }
    law_no_key_of(fs, number);
}

/// A report as it may come: fields in front, a key event, more bytes. The event has fields in
/// front, a key, more bytes. The key is made of fields in any order.
pub open spec fn report_of(
    front: Seq<Item>,
    event_front: Seq<Item>,
    key: Seq<Item>,
    more_in_event: Seq<u8>,
    more: Seq<u8>,
) -> Seq<u8> {
    encode_items(front) + (encode_delimited_field(
        4,
        encode_items(event_front) + (encode_delimited_field(1, encode_items(key))
            + more_in_event),
    ) + more)
}

/// The first complete key of a report is found, whatever fields lie in front of it, around its
/// own two, and behind it: the keycode is the last value of its field 1, in thirty-two bits, and
/// it is down if the last value of its field 2 is not 0.
#[verifier::spinoff_prover]
pub proof fn law_first_key_is_found(
    front: Seq<Item>,
    event_front: Seq<Item>,
    key: Seq<Item>,
    more_in_event: Seq<u8>,
    more: Seq<u8>,
    i: int,
    v: u64,
    j: int,
    w: u64,
)
    requires
        are_items(front),
        no_message(front, 4),
        are_items(event_front),
        no_message(event_front, 1),
        are_items(key),
        holds_last(key, 1, i, v),
        holds_last(key, 2, j, w),
        encode_items(key).len() <= usize::MAX,
        (encode_items(event_front) + (encode_delimited_field(1, encode_items(key))
            + more_in_event)).len() <= usize::MAX,
    ensures
        first_key(report_of(front, event_front, key, more_in_event, more)) matches Some(
            (keycode, down),
        ) && keycode == v % 0x1_0000_0000 && (down <==> w != 0),
{
    let k = encode_delimited_field(1, encode_items(key));
    let event = encode_items(event_front) + (k + more_in_event);
    let behind = more_in_event + more;
    law_report_skips_items(front, encode_delimited_field(4, event) + more);
    lemma_nested_field(4, event, more);
    assert(event + more =~= encode_items(event_front) + (k + behind));
    law_event_skips_items(event_front, k + behind, more.len());
    lemma_nested_field(1, encode_items(key), behind);
    law_walk_reads_back(key, behind);
    let (fs, _) = fields(encode_items(key) + behind, behind.len()).unwrap();
    lemma_last_carries_over(key, fs, 1, i, v);
    lemma_last_carries_over(key, fs, 2, j, w);
    law_key_of(fs, i, v, j, w);
    assert(key_event(event + more, more.len()) == Some((key_of(fs), behind)));
}

/// A packet with message id 0x8001, from whichever side, reports the key that lies behind the
/// two bytes of its message id. No other packet reports a key.
pub proof fn law_key_packet(p: PacketView, id: Seq<u8>, report: Seq<u8>)
    ensures
        p.message_id == 0x8001 && id.len() == 2 && p.payload == id + report ==> reported_key(p)
            == first_key(report),
        p.message_id != 0x8001 ==> reported_key(p) is None,
        p.payload.len() < 2 ==> reported_key(p) is None,
{
    if id.len() == 2 && p.payload == id + report {
        assert(p.payload.skip(2) =~= report);
    }
}

/// A packet that carries a report with a key in it reports that key, for every timestamp,
/// metastate, and whatever follows.
pub proof fn law_key_packet_is_read_back(
    p: PacketView,
    id: Seq<u8>,
    timestamp: u64,
    keycode: u32,
    down: bool,
    metastate: u32,
    more_in_event: Seq<u8>,
    more: Seq<u8>,
)
    requires
        p.message_id == 0x8001,
        id.len() == 2,
        p.payload == id + encode_report(
            timestamp,
            encode_key_event(encode_key(keycode, down, metastate), more_in_event),
            more,
        ),
        encode_key_event(encode_key(keycode, down, metastate), more_in_event).len()
            <= usize::MAX,
    ensures
        reported_key(p) == Some((keycode, down)),
{
    let event = encode_key_event(encode_key(keycode, down, metastate), more_in_event);
    law_key_packet(p, id, encode_report(timestamp, event, more));
    crate::encoding::law_first_key_is_read_back(
        timestamp,
        keycode,
        down,
        metastate,
        more_in_event,
        more,
    );
}

/// Other fields in front of a notification make no difference to its focus.
pub proof fn law_notification_skips_items(items: Seq<Item>, s: Seq<u8>)
    requires
        are_items(items),
        no_varint(items, 2),
    ensures
        focus_of(encode_items(items) + s) == focus_of(s),
    decreases items.len(),
{
    if items.len() == 0 {
        assert(encode_items(items) + s =~= s);
    } else {
        lemma_items_split(items, s);
        assert(as_field(items[0]).number == 2 ==> !(as_field(items[0]).body is Varint));
        law_focus_of(encode_items(items) + s);
        assert forall|i: int| 0 <= i < items.skip(1).len() implies !(
        (#[trigger] items.skip(1)[i]) matches Item::Varint { number: k, .. } && k == 2) by {
            assert(items.skip(1)[i] == items[i + 1]);
        }
        law_notification_skips_items(items.skip(1), s);
    }
}

/// The phone's packets with message id 0x8008 are the notifications, and announce the focus that
/// lies behind the two bytes of the message id. No other packet announces a focus.
pub proof fn law_notification_packet(p: PacketView, id: Seq<u8>, notification: Seq<u8>)
    ensures
        is_notification(p) <==> p.proxy_type == ProxyType::MobileDevice && p.message_id == 0x8008,
        p.proxy_type == ProxyType::MobileDevice && p.message_id == 0x8008 && id.len() == 2
            && p.payload == id + notification ==> announced_focus(p) == focus_of(notification),
        p.proxy_type == ProxyType::HeadUnit ==> announced_focus(p) is None,
        p.message_id != 0x8008 ==> announced_focus(p) is None,
        p.payload.len() < 2 ==> announced_focus(p) is None,
{
    if id.len() == 2 && p.payload == id + notification {
        assert(p.payload.skip(2) =~= notification);
    }
}

/// A notification of the phone announces the focus that its first mode stands for, whatever
/// fields lie in front of the mode and whatever bytes behind it: 1 is projected, 2 is native.
pub proof fn law_notification_packet_is_read_back(
    p: PacketView,
    id: Seq<u8>,
    front: Seq<Item>,
    v: u64,
    more: Seq<u8>,
)
    requires
        p.proxy_type == ProxyType::MobileDevice,
        p.message_id == 0x8008,
        id.len() == 2,
        are_items(front),
        no_varint(front, 2),
        p.payload == id + (encode_items(front) + (encode_varint_field(2, v) + more)),
    ensures
        v == 1 ==> announced_focus(p) == Some(FocusState::Projected),
        v == 2 ==> announced_focus(p) == Some(FocusState::Native),
        v != 1 && v != 2 ==> announced_focus(p) is None,
{
    let s = encode_varint_field(2, v) + more;
    law_notification_packet(p, id, encode_items(front) + s);
    law_notification_skips_items(front, s);
    law_varint_field_round_trip(2, v, more);
    law_focus_of(s);
}

} // verus!
