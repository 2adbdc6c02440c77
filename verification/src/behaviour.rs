//! Laws on how a session behaves, packet by packet and over whole runs of packets.

use crate::focus::FocusState;
use crate::packet::{
    key_down, native_request, Decision, PacketView, ProxyType, MSG_VIDEO_FOCUS_REQUEST,
};
use crate::session::{
    announced_focus, cooling_down, fresh, is_notification, millis, reported_key, step, OutcomeView,
    PressState, Session, DEFAULT_VIDEO_CHANNEL, EXIT_COOLDOWN_MS, KEYCODE_TRIGGER, LONG_PRESS_MS,
    MAX_HOLD_MS,
};
use vstd::prelude::*;

verus! {

/// A packet with the two clock readings that go with it.
pub struct Event {
    pub packet: PacketView,
    pub now: i128,
    pub later: i128,
}

/// The session after one event.
pub open spec fn after(s: Session, e: Event) -> Session {
    step(s, e.packet, e.now, e.later).0
}

/// What comes of an event.
pub open spec fn outcome(s: Session, e: Event) -> OutcomeView {
    step(s, e.packet, e.now, e.later).1
}

/// The session after a run of events.
pub open spec fn run(s: Session, es: Seq<Event>) -> Session
    decreases es.len(),
{
    if es.len() == 0 {
        s
    } else {
        after(run(s, es.drop_last()), es.last())
    }
}

/// What comes of the event at place `i` of a run.
pub open spec fn outcome_at(s: Session, es: Seq<Event>, i: int) -> OutcomeView {
    outcome(run(s, es.take(i)), es[i])
}

/// Whether the packet is an event of the trigger button, as the phone sends it.
pub open spec fn is_trigger(p: PacketView, down: bool) -> bool {
    p.proxy_type == ProxyType::MobileDevice && reported_key(p) == Some((KEYCODE_TRIGGER, down))
}

/// The packet passes as it is, and nothing is added to the stream.
pub open spec fn passes(o: OutcomeView) -> bool {
    o.decision == Decision::Forward && o.send is None
}

/// The packet is taken out of the stream, and nothing is added to it.
pub open spec fn swallowed(o: OutcomeView) -> bool {
    o.decision == Decision::Drop && o.send is None
}

/// Whether the outcome sends the request to the phone to give up the screen.
pub open spec fn requests_native(o: OutcomeView) -> bool {
    o.send matches Some(p) && p.message_id == MSG_VIDEO_FOCUS_REQUEST
}

/// Packets from the head unit pass, and leave no trace in the session.
pub proof fn law_head_unit_packets_pass(s: Session, e: Event)
    requires
        e.packet.proxy_type == ProxyType::HeadUnit,
    ensures
        passes(outcome(s, e)),
        after(s, e) == s,
{
}

/// Every packet but an event of the trigger button passes; it starts or ends no press, except
/// that a loss of focus cancels one.
pub proof fn law_only_the_trigger_is_touched(s: Session, e: Event)
    requires
        !is_trigger(e.packet, true),
        !is_trigger(e.packet, false),
    ensures
        passes(outcome(s, e)),
        after(s, e).last_inject_at == s.last_inject_at,
        after(s, e).press == s.press || (after(s, e).press == PressState::Idle && s.focus
            == FocusState::Projected && after(s, e).focus == FocusState::Native),
{
}

/// Whatever is taken out of the stream is an event of the trigger button, sent by the phone
/// while Android Auto has the screen.
pub proof fn law_only_the_trigger_is_dropped(s: Session, e: Event)
    requires
        outcome(s, e).decision == Decision::Drop,
    ensures
        is_trigger(e.packet, true) || is_trigger(e.packet, false),
        s.focus == FocusState::Projected,
{
}

/// While the focus is native every packet passes, the trigger button too: calls can be managed
/// with it.
pub proof fn law_native_focus_passes_everything(s: Session, e: Event)
    requires
        after(s, e).focus == FocusState::Native,
    ensures
        passes(outcome(s, e)),
{
}

/// When the phone gives up the screen, a press that is tracked is forgotten.
pub proof fn law_focus_loss_cancels_the_press(s: Session, e: Event)
    requires
        s.focus == FocusState::Projected,
        announced_focus(e.packet) == Some(FocusState::Native),
    ensures
        after(s, e).press == PressState::Idle,
        after(s, e).focus == FocusState::Native,
        passes(outcome(s, e)),
{
}

/// Interception goes on when Android Auto takes the screen back: the next press is tracked, and
/// its packet swallowed.
pub proof fn law_interception_resumes(s: Session, back: Event, down: Event)
    requires
        announced_focus(back.packet) == Some(FocusState::Projected),
        is_trigger(down.packet, true),
    ensures
        passes(outcome(s, back)),
        swallowed(outcome(after(s, back), down)),
        after(after(s, back), down).press is Pressed,
{
}

/// The state table, for events of the trigger button while Android Auto has the screen.
pub proof fn law_state_table(s: Session, e: Event, down: bool)
    requires
        is_trigger(e.packet, down),
        s.focus == FocusState::Projected,
    ensures
        s.press !is Pressed && down ==> swallowed(outcome(s, e)) && after(s, e) == (Session {
            press: PressState::Pressed(e.now),
            ..s
        }),
        s.press is Pressed && down ==> swallowed(outcome(s, e)) && after(s, e) == s,
        s.press is Pressed && !down ==> after(s, e).press == PressState::Handled,
        s.press is Handled && !down ==> swallowed(outcome(s, e)) && after(s, e) == (Session {
            press: PressState::Idle,
            ..s
        }),
        s.press is Idle && !down ==> passes(outcome(s, e)) && after(s, e) == s,
{
}

/// A request to give up the screen is sent exactly when the button is released after a hold that
/// is long, but not too long to be believed, and the last request is long enough ago. It goes to
/// the phone on the video channel, and its time is kept.
pub proof fn law_when_native_is_requested(s: Session, e: Event)
    ensures
        requests_native(outcome(s, e)) <==> (is_trigger(e.packet, false) && s.focus
            == FocusState::Projected && s.press is Pressed && LONG_PRESS_MS <= millis(
            s.press->Pressed_0,
            e.now,
        ) <= MAX_HOLD_MS && !cooling_down(s, e.later)),
        requests_native(outcome(s, e)) ==> outcome(s, e).send == Some(native_request(s.video_ch))
            && outcome(s, e).decision == Decision::Drop && after(s, e).last_inject_at == Some(
            e.later,
        ),
        !requests_native(outcome(s, e)) ==> after(s, e).last_inject_at == s.last_inject_at,
{
}

/// The press of the button is played back to the phone exactly when the button is released after
/// a short hold; the release itself then passes. Nothing else is ever sent but the request to
/// give up the screen.
pub proof fn law_when_the_press_is_played_back(s: Session, e: Event)
    ensures
        outcome(s, e).send == Some(key_down(e.packet.channel)) <==> (is_trigger(e.packet, false)
            && s.focus == FocusState::Projected && s.press is Pressed && millis(
            s.press->Pressed_0,
            e.now,
        ) < LONG_PRESS_MS),
        outcome(s, e).send == Some(key_down(e.packet.channel)) ==> outcome(s, e).decision
            == Decision::Forward,
        outcome(s, e).send is None || outcome(s, e).send == Some(key_down(e.packet.channel))
            || requests_native(outcome(s, e)),
{
}

/// A run takes its events one at a time.
proof fn lemma_run_grows(s: Session, es: Seq<Event>, i: int)
    requires
        0 <= i < es.len(),
    ensures
        run(s, es.take(i + 1)) == after(run(s, es.take(i)), es[i]),
{
    assert(es.take(i + 1).drop_last() =~= es.take(i));
}

/// From its first packet on, a session with native focus tracks no press.
pub proof fn law_native_focus_means_idle(es: Seq<Event>)
    ensures
        run(fresh(), es).focus == FocusState::Native ==> run(fresh(), es).press
            == PressState::Idle,
    decreases es.len(),
{
    if es.len() > 0 {
        law_native_focus_means_idle(es.drop_last());
    }
}

/// The channel of the first notification in a run, or the one that was known before.
pub open spec fn first_channel(known: u8, es: Seq<Event>) -> u8
    decreases es.len(),
{
    if es.len() == 0 {
        known
    } else if is_notification(es[0].packet) {
        es[0].packet.channel
    } else {
        first_channel(known, es.skip(1))
    }
}

/// A run can be taken from its first event on.
proof fn lemma_run_from_the_front(s: Session, es: Seq<Event>)
    requires
        es.len() > 0,
    ensures
        run(s, es) == run(after(s, es[0]), es.skip(1)),
    decreases es.len(),
{
    if es.len() == 1 {
        assert(run(s, es.drop_last()) == s);
    } else {
        lemma_run_from_the_front(s, es.drop_last());
        assert(es.drop_last().skip(1) =~= es.skip(1).drop_last());
    }
}

/// Once the video channel has been learned, it stays.
proof fn lemma_learned_channel_stays(s: Session, es: Seq<Event>)
    requires
        s.channel_learned,
    ensures
        run(s, es).channel_learned,
        run(s, es).video_ch == s.video_ch,
    decreases es.len(),
{
    if es.len() > 0 {
        lemma_learned_channel_stays(s, es.drop_last());
    }
}

/// The video channel is learned from the first notification and kept for the whole session.
pub proof fn law_first_notification_shows_the_channel(s: Session, es: Seq<Event>)
    ensures
        s.channel_learned ==> run(s, es).video_ch == s.video_ch,
        !s.channel_learned ==> run(s, es).video_ch == first_channel(s.video_ch, es),
        run(fresh(), es).video_ch == first_channel(DEFAULT_VIDEO_CHANNEL, es),
{
    lemma_channel_of_a_run(s, es);
    lemma_channel_of_a_run(fresh(), es);
}

/// The video channel after a run, whether it was learned before or not.
proof fn lemma_channel_of_a_run(s: Session, es: Seq<Event>)
    ensures
        run(s, es).video_ch == if s.channel_learned {
            s.video_ch
        } else {
            first_channel(s.video_ch, es)
        },
    decreases es.len(),
{
    if s.channel_learned {
        lemma_learned_channel_stays(s, es);
    } else if es.len() > 0 {
        lemma_run_from_the_front(s, es);
        lemma_channel_of_a_run(after(s, es[0]), es.skip(1));
    }
}

/// The focus that was announced last in a run, or the one that was known before.
pub open spec fn last_focus(known: FocusState, es: Seq<Event>) -> FocusState
    decreases es.len(),
{
    if es.len() == 0 {
        known
    } else {
        match announced_focus(es.last().packet) {
            Some(focus) => focus,
            None => last_focus(known, es.drop_last()),
        }
    }
}

/// The focus of a session is the one that the phone announced last.
pub proof fn law_last_announced_focus_counts(s: Session, es: Seq<Event>)
    ensures
        run(s, es).focus == last_focus(s.focus, es),
    decreases es.len(),
{
    if es.len() > 0 {
        law_last_announced_focus_counts(s, es.drop_last());
    }
}

/// After a request at place `i`, the time that is kept is no earlier than that request's.
proof fn lemma_request_time_is_kept(s: Session, es: Seq<Event>, i: int, k: int)
    requires
        0 <= i < k <= es.len(),
        requests_native(outcome_at(s, es, i)),
    ensures
        run(s, es.take(k)).last_inject_at matches Some(last) && last >= es[i].later,
    decreases k,
{
    lemma_run_grows(s, es, k - 1);
    law_when_native_is_requested(run(s, es.take(k - 1)), es[k - 1]);
    if k - 1 > i {
        lemma_request_time_is_kept(s, es, i, k - 1);
    }
}

/// Two requests to give up the screen, however many packets lie between them, are at least the
/// cooldown apart on the clock.
pub proof fn law_requests_keep_their_distance(s: Session, es: Seq<Event>, i: int, j: int)
    requires
        0 <= i < j < es.len(),
        requests_native(outcome_at(s, es, i)),
        requests_native(outcome_at(s, es, j)),
    ensures
        es[j].later >= es[i].later + EXIT_COOLDOWN_MS * 1_000_000,
{
    lemma_request_time_is_kept(s, es, i, j);
    law_when_native_is_requested(run(s, es.take(j)), es[j]);
}

/// While the button is held, its repeated events are swallowed and change nothing, so that the
/// hold counts from the first of them.
pub proof fn law_repeats_change_nothing(s: Session, repeats: Seq<Event>)
    requires
        s.focus == FocusState::Projected,
        s.press is Pressed,
        forall|i: int| 0 <= i < repeats.len() ==> is_trigger((#[trigger] repeats[i]).packet, true),
    ensures
        run(s, repeats) == s,
        forall|i: int|
            0 <= i < repeats.len() ==> swallowed(#[trigger] outcome_at(s, repeats, i)),
    decreases repeats.len(),
{
    if repeats.len() > 0 {
        let before = repeats.drop_last();
        assert forall|i: int| 0 <= i < before.len() implies is_trigger(
            (#[trigger] before[i]).packet,
            true,
        ) by {
            assert(before[i] == repeats[i]);
        }
        law_repeats_change_nothing(s, before);
        assert forall|i: int| 0 <= i < repeats.len() implies swallowed(
            #[trigger] outcome_at(s, repeats, i),
        ) by {
            if i < before.len() {
                assert(before.take(i) =~= repeats.take(i));
                assert(swallowed(outcome_at(s, before, i)));
            } else {
                assert(repeats.take(i) =~= before);
            }
        }
    }
}

/// No packet of the run announces native focus.
pub open spec fn keeps_projecting(es: Seq<Event>) -> bool {
    forall|i: int|
        0 <= i < es.len() ==> announced_focus((#[trigger] es[i]).packet) != Some(
            FocusState::Native,
        )
}

/// No packet of the run is a trigger event with the button down, or up, as `down` says.
pub open spec fn is_free_of(es: Seq<Event>, down: bool) -> bool {
    forall|i: int| 0 <= i < es.len() ==> !is_trigger((#[trigger] es[i]).packet, down)
}

/// Of the packets of the run, the trigger events with the button down are swallowed, and the
/// others pass; nothing is sent.
pub open spec fn swallows_the_button(s: Session, es: Seq<Event>) -> bool {
    forall|i: int|
        0 <= i < es.len() ==> {
            let o = #[trigger] outcome_at(s, es, i);
            if is_trigger(es[i].packet, true) {
                swallowed(o)
            } else {
                passes(o)
            }
        }
}

/// Between the press and the release the hold goes on, whatever packets pass meanwhile, as long
/// as the phone keeps projecting: the repeats of the button are swallowed, all other packets
/// pass, nothing is sent, and the hold counts from the first event with the button down.
pub proof fn law_hold_goes_on(s: Session, down: Event, mid: Seq<Event>)
    requires
        s.focus == FocusState::Projected,
        s.press !is Pressed,
        is_trigger(down.packet, true),
        is_free_of(mid, false),
        keeps_projecting(mid),
    ensures
        swallowed(outcome(s, down)),
        run(after(s, down), mid).press == PressState::Pressed(down.now),
        run(after(s, down), mid).focus == FocusState::Projected,
        run(after(s, down), mid).last_inject_at == s.last_inject_at,
        swallows_the_button(after(s, down), mid),
    decreases mid.len(),
{
    if mid.len() > 0 {
        let before = mid.drop_last();
        let last = mid.len() - 1;
        assert forall|i: int| 0 <= i < before.len() implies !is_trigger(
            (#[trigger] before[i]).packet,
            false,
        ) && announced_focus(before[i].packet) != Some(FocusState::Native) by {
            assert(before[i] == mid[i]);
        }
        law_hold_goes_on(s, down, before);
        assert(!is_trigger(mid[last].packet, false));
        assert(announced_focus(mid[last].packet) != Some(FocusState::Native));
        assert forall|i: int| 0 <= i < mid.len() implies {
            let o = #[trigger] outcome_at(after(s, down), mid, i);
            if is_trigger(mid[i].packet, true) {
                swallowed(o)
            } else {
                passes(o)
            }
        } by {
            if i < last {
                assert(before.take(i) =~= mid.take(i));
                assert(before[i] == mid[i]);
                let o = outcome_at(after(s, down), before, i);
                assert(o == outcome_at(after(s, down), mid, i));
            } else {
                assert(mid.take(i) =~= before);
            }
        }
    }
}

/// Packets that are no trigger events leave a press as it is, as long as the phone keeps
/// projecting.
pub proof fn law_other_packets_leave_the_press(s: Session, es: Seq<Event>)
    requires
        s.focus == FocusState::Projected,
        is_free_of(es, true),
        is_free_of(es, false),
        keeps_projecting(es),
    ensures
        run(s, es).press == s.press,
        run(s, es).focus == FocusState::Projected,
        run(s, es).last_inject_at == s.last_inject_at,
    decreases es.len(),
{
    if es.len() > 0 {
        let before = es.drop_last();
        let last = es.len() - 1;
        assert forall|i: int| 0 <= i < before.len() implies !is_trigger(
            (#[trigger] before[i]).packet,
            true,
        ) && !is_trigger(before[i].packet, false) && announced_focus(before[i].packet) != Some(
            FocusState::Native,
        ) by {
            assert(before[i] == es[i]);
        }
        law_other_packets_leave_the_press(s, before);
        assert(!is_trigger(es[last].packet, true));
        assert(!is_trigger(es[last].packet, false));
        assert(announced_focus(es[last].packet) != Some(FocusState::Native));
    }
}

/// A press of the button, with the packets that pass meanwhile: the first event with the button
/// down; the packets up to the release, repeats of the button among them; the release; the
/// packets up to its duplicate; the duplicate.
pub struct Press {
    pub down: Event,
    pub mid: Seq<Event>,
    pub up: Event,
    pub rest: Seq<Event>,
    pub duplicate: Event,
}

/// The packets of a press are what they are named for, and the phone projects all the while.
pub open spec fn is_press(p: Press) -> bool {
    &&& is_trigger(p.down.packet, true)
    &&& is_free_of(p.mid, false)
    &&& keeps_projecting(p.mid)
    &&& is_trigger(p.up.packet, false)
    &&& is_free_of(p.rest, true)
    &&& is_free_of(p.rest, false)
    &&& keeps_projecting(p.rest)
    &&& is_trigger(p.duplicate.packet, false)
}

/// The session when the button is about to be released.
pub open spec fn held(s: Session, p: Press) -> Session {
    run(after(s, p.down), p.mid)
}

/// The session when the duplicate of the release is about to arrive.
pub open spec fn handled(s: Session, p: Press) -> Session {
    run(after(held(s, p), p.up), p.rest)
}

/// A long press: on release the request to give up the screen goes to the phone on the video
/// channel; the button's own packets are all swallowed; and the session is ready for the next
/// press.
pub proof fn law_long_press(s: Session, p: Press)
    requires
        s.focus == FocusState::Projected,
        s.press !is Pressed,
        is_press(p),
        LONG_PRESS_MS <= millis(p.down.now, p.up.now) <= MAX_HOLD_MS,
        !cooling_down(s, p.up.later),
    ensures
        swallowed(outcome(s, p.down)),
        swallows_the_button(after(s, p.down), p.mid),
        outcome(held(s, p), p.up).send == Some(native_request(held(s, p).video_ch)),
        outcome(held(s, p), p.up).decision == Decision::Drop,
        swallowed(outcome(handled(s, p), p.duplicate)),
        after(handled(s, p), p.duplicate).press == PressState::Idle,
        after(handled(s, p), p.duplicate).focus == FocusState::Projected,
        after(handled(s, p), p.duplicate).last_inject_at == Some(p.up.later),
{
    law_hold_goes_on(s, p.down, p.mid);
    law_other_packets_leave_the_press(after(held(s, p), p.up), p.rest);
}

/// A short press: on release one packet with the button down goes to the phone and the release
/// passes; the button's other packets are swallowed; and the session is ready for the next press.
pub proof fn law_short_press(s: Session, p: Press)
    requires
        s.focus == FocusState::Projected,
        s.press !is Pressed,
        is_press(p),
        millis(p.down.now, p.up.now) < LONG_PRESS_MS,
    ensures
        swallowed(outcome(s, p.down)),
        swallows_the_button(after(s, p.down), p.mid),
        outcome(held(s, p), p.up).send == Some(key_down(p.up.packet.channel)),
        outcome(held(s, p), p.up).decision == Decision::Forward,
        swallowed(outcome(handled(s, p), p.duplicate)),
        after(handled(s, p), p.duplicate).press == PressState::Idle,
        after(handled(s, p), p.duplicate).focus == FocusState::Projected,
        after(handled(s, p), p.duplicate).last_inject_at == s.last_inject_at,
{
    law_hold_goes_on(s, p.down, p.mid);
    law_other_packets_leave_the_press(after(held(s, p), p.up), p.rest);
}

/// A press that nothing comes of, because a request was sent a moment ago or because its hold
/// cannot be believed: the button's packets are all swallowed, and nothing is sent.
pub proof fn law_ignored_press(s: Session, p: Press)
    requires
        s.focus == FocusState::Projected,
        s.press !is Pressed,
        is_press(p),
        millis(p.down.now, p.up.now) > MAX_HOLD_MS || (millis(p.down.now, p.up.now)
            >= LONG_PRESS_MS && cooling_down(s, p.up.later)),
    ensures
        swallowed(outcome(s, p.down)),
        swallows_the_button(after(s, p.down), p.mid),
        swallowed(outcome(held(s, p), p.up)),
        swallowed(outcome(handled(s, p), p.duplicate)),
        after(handled(s, p), p.duplicate).press == PressState::Idle,
        after(handled(s, p), p.duplicate).focus == FocusState::Projected,
        after(handled(s, p), p.duplicate).last_inject_at == s.last_inject_at,
{
    law_hold_goes_on(s, p.down, p.mid);
    law_other_packets_leave_the_press(after(held(s, p), p.up), p.rest);
}

/// A press that a loss of focus cuts short is never acted on: its release passes, whether the
/// focus has come back by then or not, as long as the button did not go down again.
pub proof fn law_cancelled_press_is_not_acted_on(
    s: Session,
    lost: Event,
    between: Seq<Event>,
    up: Event,
)
    requires
        s.focus == FocusState::Projected,
        announced_focus(lost.packet) == Some(FocusState::Native),
        is_free_of(between, true),
        is_trigger(up.packet, false),
    ensures
        run(after(s, lost), between).press == PressState::Idle,
        passes(outcome(run(after(s, lost), between), up)),
    decreases between.len(),
{
    if between.len() > 0 {
        let before = between.drop_last();
        assert forall|i: int| 0 <= i < before.len() implies !is_trigger(
            (#[trigger] before[i]).packet,
            true,
        ) by {
            assert(before[i] == between[i]);
        }
        law_cancelled_press_is_not_acted_on(s, lost, before, up);
        assert(!is_trigger(between[between.len() - 1].packet, true));
    }
}

/// The same session on a clock that reads `c` more.
pub open spec fn shifted(s: Session, c: i128) -> Session {
    Session {
        press: match s.press {
            PressState::Pressed(start) => PressState::Pressed((start + c) as i128),
            other => other,
        },
        last_inject_at: match s.last_inject_at {
            Some(last) => Some((last + c) as i128),
            None => None,
        },
        ..s
    }
}

/// Where the clock starts to count makes no difference: with all its readings moved by the same
/// amount, every packet comes out the same.
pub proof fn law_the_epoch_is_immaterial(s: Session, e: Event, c: i128)
    requires
        i128::MIN <= e.now + c <= i128::MAX,
        i128::MIN <= e.later + c <= i128::MAX,
        s.press matches PressState::Pressed(start) ==> i128::MIN <= start + c <= i128::MAX,
        s.last_inject_at matches Some(last) ==> i128::MIN <= last + c <= i128::MAX,
    ensures
        ({
            let moved = Event {
                packet: e.packet,
                now: (e.now + c) as i128,
                later: (e.later + c) as i128,
            };
            &&& after(shifted(s, c), moved) == shifted(after(s, e), c)
            &&& outcome(shifted(s, c), moved) == outcome(s, e)
        }),
{
}

} // verus!
