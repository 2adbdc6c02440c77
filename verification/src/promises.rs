//! What the hook promises, in plain terms of packets and clock readings.
//!
//! Each law says of one part of a session step what it gives for all inputs. Times are
//! nanoseconds on the clock, and packets are told by their fields.

use crate::behaviour::law_first_notification_shows_the_channel;
use crate::behaviour::law_hold_goes_on;
use crate::behaviour::{
    after, first_channel, held, is_press, is_trigger, outcome, run, Event, Press,
};
use crate::component::offset;
use crate::encoding::{encode_key, encode_key_event, encode_report, encode_varint_field};
use crate::focus::FocusState;
use crate::messages::law_key_packet;
use crate::messages::law_key_packet_is_read_back;
use crate::messages::law_notification_packet_is_read_back;
use crate::messages::{encode_items, Item};
use crate::packet::{key_down, native_request, Decision, Packet, PacketView, ProxyType};
use crate::session::{
    announced_focus, button, cooling_down, fresh, intercepted, is_notification, millis, noticed,
    released, remarks, reported_key, step, Note, Outcome, PressState, Session,
};
use vstd::prelude::*;

verus! {

/// Milliseconds are whole: a million nanoseconds each, and less than one more is left over. A
/// clock that went back shows none.
pub proof fn law_millis(from: i128, to: i128)
    ensures
        from <= to ==> millis(from, to) * 1_000_000 <= to - from < (millis(from, to) + 1)
            * 1_000_000,
        from > to ==> millis(from, to) == 0,
{
}

/// Readings put before the epoch what lies behind it: the reading is the one measurement less
/// the other, as far as it fits.
pub proof fn law_offset(ahead: u128, behind: u128)
    ensures
        i128::MIN <= ahead - behind <= i128::MAX ==> offset(ahead, behind) == ahead - behind,
        ahead - behind > i128::MAX ==> offset(ahead, behind) == i128::MAX,
        ahead - behind < i128::MIN ==> offset(ahead, behind) == i128::MIN,
{
}

/// A session starts with no press, projected focus, video channel 0x11 that no notification has
/// shown, and no request made.
pub proof fn law_fresh()
    ensures
        fresh().press == PressState::Idle,
        fresh().focus == FocusState::Projected,
        fresh().video_ch == 0x11,
        !fresh().channel_learned,
        fresh().last_inject_at is None,
{
}

/// The view of a packet shows all of it.
pub proof fn law_packet_view(p: Packet)
    ensures
        p@.proxy_type == p.proxy_type,
        p@.channel == p.channel,
        p@.packet_flags == p.packet_flags,
        p@.final_length == p.final_length,
        p@.message_id == p.message_id,
        p@.payload == p.payload@,
{
}

/// The view of an outcome shows all of it.
pub proof fn law_outcome_view(o: Outcome)
    ensures
        o@.notes == o.notes@,
        o@.decision == o.decision,
        o.send is None ==> o@.send is None,
        o.send matches Some(p) ==> o@.send == Some(p@),
{
}

/// The request to give up the screen: to the phone, on the channel that it is made for, in one
/// encrypted frame, with message id 0x8007, mode 2 and reason 0.
pub proof fn law_native_request(channel: u8)
    ensures
        native_request(channel).proxy_type == ProxyType::HeadUnit,
        native_request(channel).channel == channel,
        native_request(channel).packet_flags == 0x0B,
        native_request(channel).final_length is None,
        native_request(channel).message_id == 0x8007,
        native_request(channel).payload == seq![0x80u8, 0x07u8, 0x10u8, 0x02u8, 0x18u8, 0x00u8],
{
    assert(native_request(channel).payload =~= seq![
        0x80u8,
        0x07u8,
        0x10u8,
        0x02u8,
        0x18u8,
        0x00u8,
    ]);
}

/// The press that is played back: to the phone, on the channel that it is made for, in one
/// encrypted frame, with message id 0x8001, and it reports the trigger key, down.
pub proof fn law_key_down(channel: u8)
    ensures
        key_down(channel).proxy_type == ProxyType::HeadUnit,
        key_down(channel).channel == channel,
        key_down(channel).packet_flags == 0x0B,
        key_down(channel).final_length is None,
        key_down(channel).message_id == 0x8001,
        reported_key(key_down(channel)) == Some((65540u32, true)),
        key_down(channel).payload == seq![
            0x80u8,
            0x01u8,
            0x08u8,
            0x00u8,
            0x22u8,
            0x0Au8,
            0x0Au8,
            0x08u8,
            0x08u8,
            0x84u8,
            0x80u8,
            0x04u8,
            0x10u8,
            0x01u8,
            0x18u8,
            0x00u8,
        ],
{
    crate::encoding::law_key_down_spells_the_trigger(channel);
    assert(key_down(channel).payload =~= seq![
        0x80u8,
        0x01u8,
        0x08u8,
        0x00u8,
        0x22u8,
        0x0Au8,
        0x0Au8,
        0x08u8,
        0x08u8,
        0x84u8,
        0x80u8,
        0x04u8,
        0x10u8,
        0x01u8,
        0x18u8,
        0x00u8,
    ]);
}

/// What a session takes from a packet before any button event: nothing, unless the phone sends
/// a packet with message id 0x8008. From that it takes the focus that is announced, and the
/// channel if it is the first of its kind. A press is forgotten when projected focus turns into
/// native focus, and only then.
pub proof fn law_noticed(s: Session, p: PacketView)
    ensures
        p.proxy_type == ProxyType::HeadUnit || p.message_id != 0x8008 ==> noticed(s, p) == s,
        p.proxy_type == ProxyType::MobileDevice && p.message_id == 0x8008 ==> {
            let t = noticed(s, p);
            &&& t.channel_learned
            &&& s.channel_learned ==> t.video_ch == s.video_ch
            &&& !s.channel_learned ==> t.video_ch == p.channel
            &&& t.last_inject_at == s.last_inject_at
            &&& announced_focus(p) is None ==> t.focus == s.focus
            &&& announced_focus(p) matches Some(f) ==> t.focus == f
            &&& s.focus == FocusState::Projected && t.focus == FocusState::Native ==> t.press
                == PressState::Idle
            &&& s.focus == FocusState::Native || t.focus == FocusState::Projected ==> t.press
                == s.press
        },
{
}

/// A packet is intercepted exactly if it comes from the phone, reports keycode 65540, and the
/// focus is projected.
pub proof fn law_intercepted(s: Session, p: PacketView, down: bool)
    ensures
        intercepted(s, p) == Some(down) <==> p.proxy_type == ProxyType::MobileDevice
            && reported_key(p) == Some((65540u32, down)) && s.focus == FocusState::Projected,
        is_trigger(p, down) <==> p.proxy_type == ProxyType::MobileDevice && reported_key(p)
            == Some((65540u32, down)),
{
}

/// The remarks on a packet itself: one on a loss of focus, then one on a key, with its side,
/// keycode and whether it is down; and no other.
pub proof fn law_remarks(s: Session, p: PacketView)
    ensures
        ({
            let lost = s.focus == FocusState::Projected && announced_focus(p) == Some(
                FocusState::Native,
            );
            let notes = remarks(s, p);
            &&& reported_key(p) is None && !lost ==> notes.len() == 0
            &&& reported_key(p) is None && lost ==> notes == seq![Note::FocusLost]
            &&& reported_key(p) matches Some((keycode, down)) ==> !lost && notes == seq![
                Note::Key { from: p.proxy_type, keycode, down },
            ]
        }),
{
    let notes = remarks(s, p);
    if let Some((keycode, down)) = reported_key(p) {
        assert(notes =~= seq![Note::Key { from: p.proxy_type, keycode, down }]);
    } else if s.focus == FocusState::Projected && announced_focus(p) == Some(FocusState::Native) {
        assert(notes =~= seq![Note::FocusLost]);
    }
}

/// A request comes too soon exactly if the clock has not moved on by five seconds since the last.
pub proof fn law_cooling_down(s: Session, later: i128)
    ensures
        s.last_inject_at is None ==> !cooling_down(s, later),
        s.last_inject_at matches Some(last) ==> (cooling_down(s, later) <==> later - last
            < 5_000_000_000),
{
}

/// The button goes down: its packet is dropped and nothing is sent. Unless a press is tracked
/// already, one is tracked from now on.
pub proof fn law_button_down(s: Session, channel: u8, now: i128, later: i128)
    ensures
        ({
            let (t, o) = button(s, true, channel, now, later);
            &&& o.decision == Decision::Drop
            &&& o.send is None
            &&& t.video_ch == s.video_ch
            &&& t.channel_learned == s.channel_learned
            &&& t.focus == s.focus
            &&& t.last_inject_at == s.last_inject_at
            &&& s.press is Pressed ==> t.press == s.press && o.notes.len() == 0
            &&& s.press !is Pressed ==> t.press == PressState::Pressed(now) && o.notes == seq![
                Note::Tracking,
            ]
        }),
{
}

/// The button is released while no press is tracked: after a press that was acted on, the packet
/// is dropped and the session is ready for the next; otherwise it passes. Nothing is sent.
pub proof fn law_button_up_untracked(s: Session, channel: u8, now: i128, later: i128)
    requires
        s.press !is Pressed,
    ensures
        ({
            let (t, o) = button(s, false, channel, now, later);
            &&& o.send is None
            &&& o.notes.len() == 0
            &&& t.press == PressState::Idle
            &&& t.video_ch == s.video_ch
            &&& t.channel_learned == s.channel_learned
            &&& t.focus == s.focus
            &&& t.last_inject_at == s.last_inject_at
            &&& s.press is Handled ==> o.decision == Decision::Drop
            &&& s.press is Idle ==> o.decision == Decision::Forward
        }),
{
}

/// The hold in milliseconds, as it is remarked on.
pub open spec fn is_hold(held_ms: u128, start: i128, now: i128) -> bool {
    ||| now >= start && held_ms * 1_000_000 <= now - start < (held_ms + 1) * 1_000_000
    ||| now < start && held_ms == 0
}

/// The button is released while a press is tracked. What comes of it is decided on the clock:
///
/// - held for less than half a second, the press is played back to the phone on the button's
///   channel, and the release passes;
/// - held for half a second or more, but less than 30.001 seconds, and five seconds or more after
///   the last request if there was one, the request to give up the screen goes out on the video
///   channel, its time is kept, and the release is dropped;
/// - in all other cases the release is dropped, and nothing is sent.
#[verifier::spinoff_prover]
pub proof fn law_button_up(s: Session, start: i128, channel: u8, now: i128, later: i128)
    requires
        s.press == PressState::Pressed(start),
    ensures
        ({
            let (t, o) = button(s, false, channel, now, later);
            let hold = now - start;
            let free = s.last_inject_at is None || later - s.last_inject_at.unwrap()
                >= 5_000_000_000;
            &&& t.press == PressState::Handled
            &&& t.video_ch == s.video_ch
            &&& t.channel_learned == s.channel_learned
            &&& t.focus == s.focus
            &&& o.notes.len() == 1
            &&& hold < 500_000_000 ==> {
                &&& o.send == Some(key_down(channel))
                &&& o.decision == Decision::Forward
                &&& t.last_inject_at == s.last_inject_at
                &&& o.notes[0] matches Note::ShortPress { held_ms } && is_hold(held_ms, start, now)
            }
            &&& 500_000_000 <= hold < 30_001_000_000 && free ==> {
                &&& o.send == Some(native_request(s.video_ch))
                &&& o.decision == Decision::Drop
                &&& t.last_inject_at == Some(later)
                &&& o.notes[0] matches Note::FocusRequest { held_ms, channel: c } && is_hold(
                    held_ms,
                    start,
                    now,
                ) && c == s.video_ch
            }
            &&& 500_000_000 <= hold < 30_001_000_000 && !free ==> {
                &&& o.send is None
                &&& o.decision == Decision::Drop
                &&& t.last_inject_at == s.last_inject_at
                &&& o.notes[0] matches Note::Cooldown { held_ms } && is_hold(held_ms, start, now)
            }
            &&& hold >= 30_001_000_000 ==> {
                &&& o.send is None
                &&& o.decision == Decision::Drop
                &&& t.last_inject_at == s.last_inject_at
                &&& o.notes[0] matches Note::ClockAnomaly { held_ms } && is_hold(
                    held_ms,
                    start,
                    now,
                )
            }
            &&& released(s, start, channel, now, later) == (t, o)
        }),
{
    law_millis(start, now);
    law_cooling_down(s, later);
}

/// A step: the packet is looked at for focus and channel; if it is intercepted then, the button
/// event is acted on, on the packet's own channel and with the two readings in their order; if
/// not, it passes and nothing else happens. The remarks on the packet come first.
pub proof fn law_step(s: Session, p: PacketView, now: i128, later: i128)
    ensures
        ({
            let (t, o) = step(s, p, now, later);
            let n = noticed(s, p);
            &&& intercepted(n, p) is None ==> {
                &&& t == n
                &&& o.send is None
                &&& o.decision == Decision::Forward
                &&& o.notes == remarks(s, p)
            }
            &&& intercepted(n, p) matches Some(down) ==> {
                let (u, b) = button(n, down, p.channel, now, later);
                &&& t == u
                &&& o.send == b.send
                &&& o.decision == b.decision
                &&& o.notes == remarks(s, p) + b.notes
            }
        }),
{
}

/// A packet of the phone with the trigger's release, half a second or more but no more than
/// thirty seconds after the press began, with the last request five seconds ago or more: the
/// request to give up the screen is sent on the video channel, and the packet is dropped.
pub proof fn law_long_press_on_the_clock(s: Session, start: i128, e: Event)
    requires
        s.press == PressState::Pressed(start),
        s.focus == FocusState::Projected,
        e.packet.proxy_type == ProxyType::MobileDevice,
        reported_key(e.packet) == Some((65540u32, false)),
        500_000_000 <= e.now - start <= 30_000_000_000,
        s.last_inject_at matches Some(last) ==> e.later - last >= 5_000_000_000,
    ensures
        outcome(s, e).decision == Decision::Drop,
        outcome(s, e).send matches Some(q) && q.message_id == 0x8007 && q.channel == s.video_ch
            && q.proxy_type == ProxyType::HeadUnit,
        after(s, e).last_inject_at == Some(e.later),
{
    law_key_is_no_notification(s, e.packet);
    law_intercepted(s, e.packet, false);
    law_step(s, e.packet, e.now, e.later);
    law_button_up(s, start, e.packet.channel, e.now, e.later);
    law_native_request(s.video_ch);
}

/// A packet of the phone with the trigger's release, less than half a second after the press
/// began: the press is played back to the phone on the packet's channel, and the packet passes.
pub proof fn law_short_press_on_the_clock(s: Session, start: i128, e: Event)
    requires
        s.press == PressState::Pressed(start),
        s.focus == FocusState::Projected,
        e.packet.proxy_type == ProxyType::MobileDevice,
        reported_key(e.packet) == Some((65540u32, false)),
        e.now - start < 500_000_000,
    ensures
        outcome(s, e).decision == Decision::Forward,
        outcome(s, e).send matches Some(q) && q.message_id == 0x8001 && q.channel
            == e.packet.channel && q.proxy_type == ProxyType::HeadUnit,
        after(s, e).last_inject_at == s.last_inject_at,
{
    law_key_is_no_notification(s, e.packet);
    law_intercepted(s, e.packet, false);
    law_step(s, e.packet, e.now, e.later);
    law_button_up(s, start, e.packet.channel, e.now, e.later);
    law_key_down(e.packet.channel);
}

/// A packet that reports a key tells nothing of channel or focus.
pub proof fn law_key_is_no_notification(s: Session, p: PacketView)
    requires
        reported_key(p) is Some,
    ensures
        noticed(s, p) == s,
        announced_focus(p) is None,
{
}

/// The first packet with message id 0x8008 that the phone sends settles the video channel: every
/// request of the session from then on goes out on that packet's channel.
pub proof fn law_requests_go_to_the_first_channel(es: Seq<Event>, first: int, e: Event)
    requires
        0 <= first < es.len(),
        es[first].packet.proxy_type == ProxyType::MobileDevice,
        es[first].packet.message_id == 0x8008,
        forall|j: int|
            0 <= j < first ==> (#[trigger] es[j]).packet.proxy_type == ProxyType::HeadUnit
                || es[j].packet.message_id != 0x8008,
        outcome(run(fresh(), es), e).send matches Some(q) && q.message_id == 0x8007,
    ensures
        outcome(run(fresh(), es), e).send matches Some(q) && q.channel
            == es[first].packet.channel,
{
    law_first_notification_shows_the_channel(fresh(), es);
    lemma_first_channel(0x11, es, first);
    lemma_request_channel(run(fresh(), es), e);
}

/// As long as the phone has sent no packet with message id 0x8008, requests go out on channel
/// 0x11.
pub proof fn law_requests_go_to_the_default_channel(es: Seq<Event>, e: Event)
    requires
        forall|j: int|
            0 <= j < es.len() ==> (#[trigger] es[j]).packet.proxy_type == ProxyType::HeadUnit
                || es[j].packet.message_id != 0x8008,
        outcome(run(fresh(), es), e).send matches Some(q) && q.message_id == 0x8007,
    ensures
        outcome(run(fresh(), es), e).send matches Some(q) && q.channel == 0x11,
{
    law_first_notification_shows_the_channel(fresh(), es);
    lemma_first_channel(0x11, es, es.len() as int);
    lemma_request_channel(run(fresh(), es), e);
}

/// The channel of the first notification, found by its place; the known one if the place is the
/// end of the run.
proof fn lemma_first_channel(known: u8, es: Seq<Event>, first: int)
    requires
        0 <= first <= es.len(),
        first < es.len() ==> is_notification(es[first].packet),
        forall|j: int| 0 <= j < first ==> !is_notification((#[trigger] es[j]).packet),
    ensures
        first < es.len() ==> first_channel(known, es) == es[first].packet.channel,
        first == es.len() ==> first_channel(known, es) == known,
    decreases es.len(),
{
    if first > 0 {
        assert(!is_notification(es[0].packet));
        assert forall|j: int| 0 <= j < first - 1 implies !is_notification(
            (#[trigger] es.skip(1)[j]).packet,
        ) by {
            assert(es.skip(1)[j] == es[j + 1]);
        }
        lemma_first_channel(known, es.skip(1), first - 1);
    }
}

/// A request goes out on the video channel of the session: the packet that causes it shows no
/// other.
proof fn lemma_request_channel(s: Session, e: Event)
    requires
        outcome(s, e).send matches Some(q) && q.message_id == 0x8007,
    ensures
        outcome(s, e).send matches Some(q) && q.channel == s.video_ch,
{
    law_key_down(e.packet.channel);
    law_native_request(s.video_ch);
}

/// A whole press on the clock: held for half a second to thirty seconds, with whatever packets
/// in between, and not within five seconds of the last request, it sends the request to give up
/// the screen.
pub proof fn law_whole_long_press_on_the_clock(s: Session, p: Press)
    requires
        s.focus == FocusState::Projected,
        s.press !is Pressed,
        is_press(p),
        500_000_000 <= p.up.now - p.down.now <= 30_000_000_000,
        s.last_inject_at matches Some(last) ==> p.up.later - last >= 5_000_000_000,
    ensures
        outcome(held(s, p), p.up).decision == Decision::Drop,
        outcome(held(s, p), p.up).send matches Some(q) && q.message_id == 0x8007 && q.channel
            == held(s, p).video_ch && q.proxy_type == ProxyType::HeadUnit,
{
    law_hold_goes_on(s, p.down, p.mid);
    law_intercepted(s, p.up.packet, false);
    law_long_press_on_the_clock(held(s, p), p.down.now, p.up);
}

/// One request does not stand in the way of the next for longer than five seconds: after a
/// request, a whole press that is held for half a second to thirty seconds and released five
/// seconds or more later sends another.
pub proof fn law_next_request_is_served(s: Session, request: Event, p: Press)
    requires
        outcome(s, request).send matches Some(q) && q.message_id == 0x8007,
        is_press(p),
        500_000_000 <= p.up.now - p.down.now <= 30_000_000_000,
        p.up.later - request.later >= 5_000_000_000,
    ensures
        after(s, request).last_inject_at == Some(request.later),
        outcome(held(after(s, request), p), p.up).send matches Some(q) && q.message_id == 0x8007,
{
    law_key_down(request.packet.channel);
    law_whole_long_press_on_the_clock(after(s, request), p);
}

/// A long press in bytes: the release of the trigger key, in a report with any timestamp and
/// metastate, with whatever bytes behind the key and behind the event, on any channel, sends the
/// request as [`law_long_press_on_the_clock`] says.
pub proof fn law_long_press_in_bytes(
    s: Session,
    start: i128,
    e: Event,
    timestamp: u64,
    metastate: u32,
    more_in_event: Seq<u8>,
    more: Seq<u8>,
)
    requires
        s.press == PressState::Pressed(start),
        s.focus == FocusState::Projected,
        e.packet.proxy_type == ProxyType::MobileDevice,
        e.packet.message_id == 0x8001,
        e.packet.payload == seq![0x80u8, 0x01u8] + encode_report(
            timestamp,
            encode_key_event(encode_key(65540, false, metastate), more_in_event),
            more,
        ),
        encode_key_event(encode_key(65540, false, metastate), more_in_event).len() <= usize::MAX,
        500_000_000 <= e.now - start <= 30_000_000_000,
        s.last_inject_at matches Some(last) ==> e.later - last >= 5_000_000_000,
    ensures
        outcome(s, e).decision == Decision::Drop,
        outcome(s, e).send matches Some(q) && q.message_id == 0x8007 && q.channel == s.video_ch
            && q.proxy_type == ProxyType::HeadUnit,
        after(s, e).last_inject_at == Some(e.later),
{
    law_key_packet_is_read_back(
        e.packet,
        seq![0x80u8, 0x01u8],
        timestamp,
        65540,
        false,
        metastate,
        more_in_event,
        more,
    );
    law_long_press_on_the_clock(s, start, e);
}

/// A press in bytes: the trigger key going down, in a report with any timestamp and metastate and
/// whatever bytes behind, is tracked from its reading on, unless one is tracked already.
pub proof fn law_press_in_bytes(
    s: Session,
    e: Event,
    timestamp: u64,
    metastate: u32,
    more_in_event: Seq<u8>,
    more: Seq<u8>,
)
    requires
        s.press !is Pressed,
        s.focus == FocusState::Projected,
        e.packet.proxy_type == ProxyType::MobileDevice,
        e.packet.message_id == 0x8001,
        e.packet.payload == seq![0x80u8, 0x01u8] + encode_report(
            timestamp,
            encode_key_event(encode_key(65540, true, metastate), more_in_event),
            more,
        ),
        encode_key_event(encode_key(65540, true, metastate), more_in_event).len() <= usize::MAX,
    ensures
        after(s, e) == (Session { press: PressState::Pressed(e.now), ..s }),
        outcome(s, e).decision == Decision::Drop,
        outcome(s, e).send is None,
{
    law_key_packet_is_read_back(
        e.packet,
        seq![0x80u8, 0x01u8],
        timestamp,
        65540,
        true,
        metastate,
        more_in_event,
        more,
    );
    law_key_is_no_notification(s, e.packet);
    law_intercepted(s, e.packet, true);
    law_step(s, e.packet, e.now, e.later);
    law_button_down(s, e.packet.channel, e.now, e.later);
}

/// A notification of the phone in bytes: behind the message id the mode, and whatever bytes
/// behind that. Mode 2 gives native focus, and a trigger event after it passes untouched; mode 1
/// gives projected focus; any other leaves the focus as it is.
pub proof fn law_notification_in_bytes(s: Session, n: Event, v: u64, more: Seq<u8>, e: Event)
    requires
        n.packet.proxy_type == ProxyType::MobileDevice,
        n.packet.message_id == 0x8008,
        n.packet.payload == seq![0x80u8, 0x08u8] + (encode_varint_field(2, v) + more),
        e.packet.proxy_type == ProxyType::MobileDevice,
        reported_key(e.packet) is Some,
    ensures
        v == 1 ==> after(s, n).focus == FocusState::Projected,
        v == 2 ==> after(s, n).focus == FocusState::Native,
        v != 1 && v != 2 ==> after(s, n).focus == s.focus,
        v == 2 ==> outcome(after(s, n), e).decision == Decision::Forward,
        v == 2 ==> outcome(after(s, n), e).send is None,
        v == 2 ==> after(after(s, n), e) == after(s, n),
{
    let front: Seq<Item> = Seq::empty();
    let field = encode_varint_field(2, v) + more;
    assert(encode_items(front) + field =~= field);
    law_notification_packet_is_read_back(n.packet, seq![0x80u8, 0x08u8], front, v, more);
    law_noticed(s, n.packet);
    law_key_packet(n.packet, seq![0x80u8, 0x08u8], field);
    law_step(s, n.packet, n.now, n.later);
    law_key_is_no_notification(after(s, n), e.packet);
    law_step(after(s, n), e.packet, e.now, e.later);
}

/// Native focus, once announced, keeps the hook's hands off: the packet that announces it passes,
/// and so does every packet after it until projected focus is announced.
pub proof fn law_calls_are_left_alone(s: Session, native: Event, es: Seq<Event>, e: Event)
    requires
        announced_focus(native.packet) == Some(FocusState::Native),
        forall|i: int|
            0 <= i < es.len() ==> announced_focus((#[trigger] es[i]).packet) != Some(
                FocusState::Projected,
            ),
        announced_focus(e.packet) != Some(FocusState::Projected),
    ensures
        run(after(s, native), es).focus == FocusState::Native,
        outcome(s, native).decision == Decision::Forward,
        outcome(s, native).send is None,
        outcome(run(after(s, native), es), e).decision == Decision::Forward,
        outcome(run(after(s, native), es), e).send is None,
    decreases es.len(),
{
    if es.len() > 0 {
        let before = es.drop_last();
        assert forall|i: int| 0 <= i < before.len() implies announced_focus(
            (#[trigger] before[i]).packet,
        ) != Some(FocusState::Projected) by {
            assert(before[i] == es[i]);
        }
        law_calls_are_left_alone(s, native, before, e);
        assert(announced_focus(es[es.len() - 1].packet) != Some(FocusState::Projected));
    }
}

} // verus!
