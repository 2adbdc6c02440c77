use aa_minimize_wasm::component::{signed_offset, Component};
use aa_minimize_wasm::focus::FocusState;
use aa_minimize_wasm::packet::{
    make_key_down, make_native_request, Decision, Packet, ProxyType, MSG_INPUT_REPORT,
    MSG_VIDEO_FOCUS_NOTIFICATION, SHORT_PRESS_KEY_DOWN,
};
use aa_minimize_wasm::session::{elapsed_millis, Note, Outcome, PressState, Session};

const MS: i128 = 1_000_000;

fn packet(proxy_type: ProxyType, channel: u8, message_id: u16, payload: &[u8]) -> Packet {
    Packet {
        proxy_type,
        channel,
        packet_flags: 0x0B,
        final_length: None,
        message_id,
        payload: payload.to_vec(),
    }
}

fn key(from: ProxyType, down: bool) -> Packet {
    let mut payload = SHORT_PRESS_KEY_DOWN.to_vec();
    payload[13] = if down { 1 } else { 0 };
    packet(from, 8, MSG_INPUT_REPORT, &payload)
}

fn trigger(down: bool) -> Packet {
    key(ProxyType::MobileDevice, down)
}

fn focus(mode: u8, channel: u8) -> Packet {
    packet(
        ProxyType::MobileDevice,
        channel,
        MSG_VIDEO_FOCUS_NOTIFICATION,
        &[0x80, 0x08, 0x10, mode],
    )
}

fn seen(down: bool) -> Note {
    Note::Key { from: ProxyType::MobileDevice, keycode: 65540, down }
}

fn swallowed(notes: &[Note]) -> Outcome {
    Outcome { notes: notes.to_vec(), send: None, decision: Decision::Drop }
}

fn passed(notes: &[Note]) -> Outcome {
    Outcome { notes: notes.to_vec(), send: None, decision: Decision::Forward }
}

/// Presses at `from` and releases at `to`, in milliseconds.
fn press(s: &mut Session, from: i128, to: i128) -> Outcome {
    assert_eq!(
        s.modify_packet(&trigger(true), from * MS, from * MS),
        swallowed(&[seen(true), Note::Tracking])
    );
    s.modify_packet(&trigger(false), to * MS, to * MS)
}

#[test]
fn a_fresh_session() {
    let s = Session::new();
    assert_eq!(s.press, PressState::Idle);
    assert_eq!(s.video_ch, 0x11);
    assert_eq!(s.focus, FocusState::Projected);
    assert_eq!(s.last_inject_at, None);
}

#[test]
fn whole_milliseconds() {
    assert_eq!(elapsed_millis(0, 499_999_999), 499);
    assert_eq!(elapsed_millis(0, 500_000_000), 500);
    assert_eq!(elapsed_millis(7, 6), 0);
    assert_eq!(elapsed_millis(i128::MAX, i128::MIN), 0);
    assert_eq!(elapsed_millis(-700_000_000, -100_000_001), 599);
    assert_eq!(elapsed_millis(-1, 999_999), 1);
    assert_eq!(elapsed_millis(i128::MIN, i128::MAX), u128::MAX / 1_000_000);
}

#[test]
fn the_fixed_packets() {
    assert_eq!(
        make_native_request(0x11),
        Packet {
            proxy_type: ProxyType::HeadUnit,
            channel: 0x11,
            packet_flags: 0x0B,
            final_length: None,
            message_id: 0x8007,
            payload: vec![0x80, 0x07, 0x10, 0x02, 0x18, 0x00],
        }
    );
    assert_eq!(
        make_key_down(8),
        Packet {
            proxy_type: ProxyType::HeadUnit,
            channel: 8,
            packet_flags: 0x0B,
            final_length: None,
            message_id: 0x8001,
            payload: vec![
                0x80, 0x01, 0x08, 0x00, 0x22, 0x0A, 0x0A, 0x08, 0x08, 0x84, 0x80, 0x04, 0x10,
                0x01, 0x18, 0x00
            ],
        }
    );
}

#[test]
fn long_press_requests_native_focus() {
    let mut s = Session::new();
    s.modify_packet(&focus(1, 0x21), 0, 0);
    assert_eq!(
        s.modify_packet(&trigger(true), 1_000 * MS, 0),
        swallowed(&[seen(true), Note::Tracking])
    );
    for i in 1..20 {
        assert_eq!(
            s.modify_packet(&trigger(true), (1_000 + 50 * i) * MS, 0),
            swallowed(&[seen(true)])
        );
    }
    assert_eq!(
        s.modify_packet(&trigger(false), 2_000 * MS, 2_001 * MS),
        Outcome {
            notes: vec![seen(false), Note::FocusRequest { held_ms: 1_000, channel: 0x21 }],
            send: Some(make_native_request(0x21)),
            decision: Decision::Drop,
        }
    );
    assert_eq!(s.press, PressState::Handled);
    assert_eq!(s.last_inject_at, Some(2_001 * MS));
    assert_eq!(s.modify_packet(&trigger(false), 2_002 * MS, 0), swallowed(&[seen(false)]));
    assert_eq!(s.press, PressState::Idle);
}

#[test]
fn short_press_is_played_back() {
    let mut s = Session::new();
    assert_eq!(
        press(&mut s, 100, 599),
        Outcome {
            notes: vec![seen(false), Note::ShortPress { held_ms: 499 }],
            send: Some(make_key_down(8)),
            decision: Decision::Forward,
        }
    );
    assert_eq!(s.press, PressState::Handled);
    assert_eq!(s.last_inject_at, None);
    assert_eq!(s.modify_packet(&trigger(false), 600 * MS, 0), swallowed(&[seen(false)]));
    assert_eq!(s, Session::new());
}

#[test]
fn the_thresholds() {
    let long = |to: i128| press(&mut Session::new(), 0, to).send == Some(make_native_request(0x11));
    assert!(!long(499));
    assert!(long(500));
    assert!(long(30_000));
    assert!(!long(30_001));
}

#[test]
fn unbelievable_hold_is_ignored() {
    let mut s = Session::new();
    assert_eq!(
        press(&mut s, 0, 30_001),
        swallowed(&[seen(false), Note::ClockAnomaly { held_ms: 30_001 }])
    );
    assert_eq!(s.press, PressState::Handled);
    assert_eq!(s.last_inject_at, None);
}

#[test]
fn clock_that_goes_back_makes_a_short_press() {
    let mut s = Session::new();
    assert_eq!(press(&mut s, 1_000, 10).notes[1], Note::ShortPress { held_ms: 0 });
}

#[test]
fn press_before_the_epoch_is_timed() {
    let mut s = Session::new();
    assert_eq!(press(&mut s, -10_000, -9_501).send, Some(make_key_down(8)));
    assert_eq!(press(&mut s, -9_000, -8_500).send, Some(make_native_request(0x11)));
    assert_eq!(
        press(&mut s, -4_100, -3_501),
        swallowed(&[seen(false), Note::Cooldown { held_ms: 599 }])
    );
    assert_eq!(press(&mut s, -4_100, -3_500).send, Some(make_native_request(0x11)));
}

#[test]
fn offsets_are_signed() {
    assert_eq!(signed_offset(7, 0), 7);
    assert_eq!(signed_offset(0, 7), -7);
    assert_eq!(signed_offset(0, 0), 0);
    assert_eq!(signed_offset(u128::MAX, 0), i128::MAX);
    assert_eq!(signed_offset(0, u128::MAX), i128::MIN);
    assert_eq!(signed_offset(0, 1 << 127), i128::MIN);
}

#[test]
fn requests_keep_their_distance() {
    let mut s = Session::new();
    assert!(press(&mut s, 0, 1_000).send.is_some());
    assert_eq!(
        press(&mut s, 5_000, 5_999),
        swallowed(&[seen(false), Note::Cooldown { held_ms: 999 }])
    );
    assert_eq!(s.last_inject_at, Some(1_000 * MS));
    assert_eq!(press(&mut s, 5_400, 6_000).send, Some(make_native_request(0x11)));
    assert_eq!(s.last_inject_at, Some(6_000 * MS));
}

#[test]
fn the_second_reading_decides_the_cooldown() {
    let mut s = Session::new();
    press(&mut s, 0, 1_000);
    s.modify_packet(&trigger(true), 5_000 * MS, 0);
    let outcome = s.modify_packet(&trigger(false), 5_999 * MS, 6_000 * MS);
    assert_eq!(outcome.send, Some(make_native_request(0x11)));
}

#[test]
fn press_right_after_a_handled_one() {
    let mut s = Session::new();
    press(&mut s, 0, 10);
    assert_eq!(s.press, PressState::Handled);
    assert_eq!(press(&mut s, 20, 30).send, Some(make_key_down(8)));
}

#[test]
fn stray_release_passes() {
    let mut s = Session::new();
    assert_eq!(s.modify_packet(&trigger(false), 5, 5), passed(&[seen(false)]));
    assert_eq!(s, Session::new());
}

#[test]
fn native_focus_passes_the_button() {
    let mut s = Session::new();
    assert_eq!(s.modify_packet(&focus(2, 0x11), 0, 0), passed(&[Note::FocusLost]));
    assert_eq!(s.modify_packet(&trigger(true), 0, 0), passed(&[seen(true)]));
    assert_eq!(s.modify_packet(&trigger(false), 900 * MS, 900 * MS), passed(&[seen(false)]));
    assert_eq!(s.modify_packet(&focus(2, 0x11), 0, 0), passed(&[]));
    assert_eq!(s.modify_packet(&focus(1, 0x11), 0, 0), passed(&[]));
    assert_eq!(press(&mut s, 1_000, 2_000).send, Some(make_native_request(0x11)));
}

#[test]
fn focus_loss_cancels_a_press() {
    let mut s = Session::new();
    s.modify_packet(&trigger(true), 0, 0);
    assert_eq!(s.press, PressState::Pressed(0));
    assert_eq!(s.modify_packet(&focus(2, 0x11), 0, 0), passed(&[Note::FocusLost]));
    assert_eq!(s.press, PressState::Idle);
    s.modify_packet(&focus(1, 0x11), 0, 0);
    assert_eq!(s.modify_packet(&trigger(false), 900 * MS, 900 * MS), passed(&[seen(false)]));
}

#[test]
fn projected_again_leaves_a_press_alone() {
    let mut s = Session::new();
    s.modify_packet(&trigger(true), 3, 3);
    assert_eq!(s.modify_packet(&focus(1, 0x31), 0, 0), passed(&[]));
    assert_eq!(s.press, PressState::Pressed(3));
    assert_eq!(s.video_ch, 0x31);
}

#[test]
fn last_announced_focus_counts() {
    let mut s = Session::new();
    s.modify_packet(&focus(1, 0x20), 0, 0);
    s.modify_packet(&focus(2, 0x20), 0, 0);
    s.modify_packet(&focus(9, 0x20), 0, 0);
    assert_eq!(s.focus, FocusState::Native);
    let short = packet(ProxyType::MobileDevice, 0x20, MSG_VIDEO_FOCUS_NOTIFICATION, &[0x80]);
    assert_eq!(s.modify_packet(&short, 0, 0), passed(&[]));
    assert_eq!(s.focus, FocusState::Native);
}

#[test]
fn first_notification_shows_the_channel() {
    let mut s = Session::new();
    s.modify_packet(&focus(1, 5), 0, 0);
    assert_eq!(s.video_ch, 5);
    assert!(s.channel_learned);
    s.modify_packet(&focus(1, 6), MS, MS);
    assert_eq!(s.video_ch, 5);
    let outcome = press(&mut s, 10, 700);
    assert_eq!(outcome.send, Some(make_native_request(5)));
    assert_eq!(outcome.decision, Decision::Drop);
}

#[test]
fn notification_without_focus_shows_the_channel() {
    let mut s = Session::new();
    let short = packet(ProxyType::MobileDevice, 0x23, MSG_VIDEO_FOCUS_NOTIFICATION, &[0x80]);
    s.modify_packet(&short, 0, 0);
    s.modify_packet(&focus(1, 0x24), 0, 0);
    assert_eq!(s.video_ch, 0x23);
}

#[test]
fn other_packets_do_not_disturb_a_press() {
    for (to, send) in [(499, make_key_down(8)), (500, make_native_request(0x31))] {
        let mut s = Session::new();
        s.modify_packet(&trigger(true), 0, 0);
        let media = packet(ProxyType::MobileDevice, 3, 0x0001, &[0x00, 0x01, 0xFF]);
        assert_eq!(s.modify_packet(&media, MS, MS), passed(&[]));
        assert_eq!(s.modify_packet(&focus(1, 0x31), MS, MS), passed(&[]));
        s.modify_packet(&key(ProxyType::HeadUnit, false), MS, MS);
        assert_eq!(s.modify_packet(&trigger(true), 50 * MS, 0), swallowed(&[seen(true)]));
        assert_eq!(s.press, PressState::Pressed(0));
        assert_eq!(s.modify_packet(&trigger(false), to * MS, to * MS).send, Some(send));
        assert_eq!(s.modify_packet(&media, to * MS, 0), passed(&[]));
        assert_eq!(s.modify_packet(&trigger(false), to * MS, 0), swallowed(&[seen(false)]));
        assert_eq!(s.press, PressState::Idle);
    }
}

#[test]
fn head_unit_packets_pass() {
    let mut s = Session::new();
    assert_eq!(
        s.modify_packet(&key(ProxyType::HeadUnit, true), 0, 0),
        passed(&[Note::Key { from: ProxyType::HeadUnit, keycode: 65540, down: true }])
    );
    let mut notification = focus(2, 0x44);
    notification.proxy_type = ProxyType::HeadUnit;
    assert_eq!(s.modify_packet(&notification, 0, 0), passed(&[]));
    assert_eq!(s, Session::new());
}

#[test]
fn other_keys_and_messages_pass() {
    let mut s = Session::new();
    let mut other = trigger(true);
    other.payload[9] = 0x85;
    assert_eq!(
        s.modify_packet(&other, 0, 0),
        passed(&[Note::Key { from: ProxyType::MobileDevice, keycode: 65541, down: true }])
    );
    let mut media = trigger(true);
    media.message_id = 0x0001;
    assert_eq!(s.modify_packet(&media, 0, 0), passed(&[]));
    let stub = packet(ProxyType::MobileDevice, 8, MSG_INPUT_REPORT, &[0x80]);
    assert_eq!(s.modify_packet(&stub, 0, 0), passed(&[]));
    let no_key = packet(ProxyType::MobileDevice, 8, MSG_INPUT_REPORT, &[0x80, 0x01, 0x08, 0x00]);
    assert_eq!(s.modify_packet(&no_key, 0, 0), passed(&[]));
    assert_eq!(s, Session::new());
}

#[test]
fn the_epoch_is_immaterial() {
    let mut a = Session::new();
    let mut b = Session::new();
    let c = 987_654_321;
    for (pkt, now) in [
        (trigger(true), 10 * MS),
        (trigger(false), 700 * MS),
        (trigger(false), 701 * MS),
        (trigger(true), 5_000 * MS),
        (trigger(false), 5_699 * MS),
        (trigger(true), 5_700 * MS),
        (trigger(false), 6_300 * MS),
    ] {
        assert_eq!(a.modify_packet(&pkt, now, now), b.modify_packet(&pkt, now + c, now + c));
    }
    assert_eq!(b.last_inject_at, a.last_inject_at.map(|t| t + c));
}

#[test]
fn observe_and_act_make_a_step() {
    let mut s = Session::new();
    let (notes, event) = s.observe(&trigger(true));
    assert_eq!(notes, vec![seen(true)]);
    assert_eq!(event, Some(true));
    assert_eq!(s, Session::new());
    assert_eq!(s.act(notes, true, 8, 5, 5), swallowed(&[seen(true), Note::Tracking]));
    assert_eq!(s.press, PressState::Pressed(5));
}

fn wait(ms: u128) {
    let start = std::time::Instant::now();
    while start.elapsed().as_millis() < ms {}
}

#[test]
fn the_clock_tells_short_from_long() {
    let mut c = Component::new();
    assert_eq!(c.modify_packet(&trigger(true)), swallowed(&[seen(true), Note::Tracking]));
    wait(520);
    let outcome = c.modify_packet(&trigger(false));
    assert_eq!(outcome.send, Some(make_native_request(0x11)));
    assert_eq!(outcome.decision, Decision::Drop);
    match outcome.notes[1] {
        Note::FocusRequest { held_ms, .. } => assert!(held_ms >= 520 && held_ms < 30_000),
        _ => panic!("no focus request"),
    }
    assert_eq!(c.modify_packet(&trigger(false)), swallowed(&[seen(false)]));
    c.modify_packet(&trigger(true));
    wait(520);
    assert!(matches!(c.modify_packet(&trigger(false)).notes[1], Note::Cooldown { .. }));
    c.modify_packet(&trigger(true));
    let outcome = c.modify_packet(&trigger(false));
    assert_eq!(outcome.send, Some(make_key_down(8)));
    assert_eq!(outcome.decision, Decision::Forward);
}

#[test]
fn the_component_passes_the_rest() {
    let mut c = Component::new();
    assert_eq!(c.modify_packet(&focus(2, 0x11)), passed(&[Note::FocusLost]));
    assert_eq!(c.modify_packet(&trigger(true)), passed(&[seen(true)]));
}
