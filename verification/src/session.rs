//! The state of a session, and what the hook does with each packet.
//!
//! Times are readings of one clock, in nanoseconds before or after an epoch of its own. A packet
//! comes with two of them, `now` and `later`: the first is taken when the button event is seen,
//! the second when it comes to sending a focus request. Nothing is assumed of the clock; it may
//! step back, behind its epoch too.

use crate::focus::parse_focus;
use crate::focus::{focus_of, FocusState};
use crate::input::first_key;
use crate::input::parse_key;
use crate::packet::make_key_down;
use crate::packet::make_native_request;
use crate::packet::MSG_INPUT_REPORT;
use crate::packet::MSG_VIDEO_FOCUS_NOTIFICATION;
use crate::packet::{key_down, native_request, Decision, Packet, PacketView, ProxyType};
use vstd::prelude::*;
use vstd::slice::slice_subrange;

verus! {

/// The steering wheel button that is intercepted: the keycode that the car sends for it.
pub const KEYCODE_TRIGGER: u32 = 65540;

/// How long the button must be held, in milliseconds, for a long press.
pub const LONG_PRESS_MS: u128 = 500;

/// The least time, in milliseconds, between two focus requests.
pub const EXIT_COOLDOWN_MS: u128 = 5_000;

/// The longest hold, in milliseconds, that is believed. A clock that jumped is the likelier
/// reason for anything above.
pub const MAX_HOLD_MS: u128 = 30_000;

/// The video channel that is used until a notification has shown which one it is.
pub const DEFAULT_VIDEO_CHANNEL: u8 = 0x11;

/// How far a press of the button has come.
#[derive(Copy, Clone, Debug, PartialEq, Eq, Structural)]
pub enum PressState {
    /// No press is tracked.
    Idle,
    /// The button went down at this clock reading and has not been released.
    Pressed(i128),
    /// The release has been acted on; its duplicate is still to come.
    Handled,
}

/// What the hook remembers from packet to packet. The video channel is learned from the first
/// notification of the session; `channel_learned` says whether there has been one.
#[derive(Copy, Clone, Debug, PartialEq, Eq)]
pub struct Session {
    pub press: PressState,
    pub video_ch: u8,
    pub channel_learned: bool,
    pub focus: FocusState,
    pub last_inject_at: Option<i128>,
}

/// A remark for the log.
#[derive(Copy, Clone, Debug, PartialEq, Eq)]
pub enum Note {
    /// The phone gave up the screen; a press that was tracked is forgotten.
    FocusLost,
    /// A key event was seen.
    Key { from: ProxyType, keycode: u32, down: bool },
    /// The button went down, and its hold is timed from now on.
    Tracking,
    /// The hold was too long to be believed.
    ClockAnomaly { held_ms: u128 },
    /// A long press came too soon after the last focus request.
    Cooldown { held_ms: u128 },
    /// A long press sends a focus request.
    FocusRequest { held_ms: u128, channel: u8 },
    /// A short press is played back.
    ShortPress { held_ms: u128 },
}

/// What comes of a packet: the remarks are logged in order, then the packet in `send`, if there
/// is one, is added to the stream, and the packet at hand meets the decision.
#[derive(Clone, Debug, PartialEq, Eq)]
pub struct Outcome {
    pub notes: Vec<Note>,
    pub send: Option<Packet>,
    pub decision: Decision,
}

/// An outcome, with its parts as mathematical values.
pub struct OutcomeView {
    pub notes: Seq<Note>,
    pub send: Option<PacketView>,
    pub decision: Decision,
}

impl View for Outcome {
    type V = OutcomeView;

    open spec fn view(&self) -> OutcomeView {
        OutcomeView {
            notes: self.notes@,
            send: match self.send {
                Some(packet) => Some(packet@),
                None => None,
            },
            decision: self.decision,
        }
    }
}

/// A session before its first packet. Android Auto starts with the screen.
pub open spec fn fresh() -> Session {
    Session {
        press: PressState::Idle,
        video_ch: DEFAULT_VIDEO_CHANNEL,
        channel_learned: false,
        focus: FocusState::Projected,
        last_inject_at: None,
    }
}

/// The whole milliseconds from one clock reading to another; none if the clock went back.
pub open spec fn millis(from: i128, to: i128) -> u128 {
    if from <= to {
        ((to - from) / 1_000_000) as u128
    } else {
        0
    }
}

/// Whether the phone says with this packet who has the screen.
pub open spec fn is_notification(p: PacketView) -> bool {
    p.proxy_type == ProxyType::MobileDevice && p.message_id == MSG_VIDEO_FOCUS_NOTIFICATION
}

/// The focus that the phone announces with this packet.
pub open spec fn announced_focus(p: PacketView) -> Option<FocusState> {
    if is_notification(p) && p.payload.len() >= 2 {
        focus_of(p.payload.skip(2))
    } else {
        None
    }
}

/// The key that this packet reports, from whichever side.
pub open spec fn reported_key(p: PacketView) -> Option<(u32, bool)> {
    if p.message_id == MSG_INPUT_REPORT && p.payload.len() >= 2 {
        first_key(p.payload.skip(2))
    } else {
        None
    }
}

/// The session after the packet has been looked at for the video channel and the focus. The
/// first notification shows the channel, every one may change the focus. When the phone gives up
/// the screen, a press that is under way is forgotten.
pub open spec fn noticed(s: Session, p: PacketView) -> Session {
    if is_notification(p) {
        let focus = match announced_focus(p) {
            Some(f) => f,
            None => s.focus,
        };
        Session {
            press: if s.focus == FocusState::Projected && focus == FocusState::Native {
                PressState::Idle
            } else {
                s.press
            },
            video_ch: if s.channel_learned {
                s.video_ch
            } else {
                p.channel
            },
            channel_learned: true,
            focus,
            last_inject_at: s.last_inject_at,
        }
    } else {
        s
    }
}

/// Whether the packet is a button event to intercept, and if so, whether the button is down: it
/// comes from the phone, its key is the trigger, and Android Auto has the screen.
pub open spec fn intercepted(s: Session, p: PacketView) -> Option<bool> {
    match reported_key(p) {
        Some((keycode, down)) => if p.proxy_type == ProxyType::MobileDevice && keycode
            == KEYCODE_TRIGGER && s.focus == FocusState::Projected {
            Some(down)
        } else {
            None
        },
        None => None,
    }
}

/// Whether a focus request at `later` would come too soon after the last one.
pub open spec fn cooling_down(s: Session, later: i128) -> bool {
    match s.last_inject_at {
        Some(last) => millis(last, later) < EXIT_COOLDOWN_MS,
        None => false,
    }
}

/// The release of a button that went down at `start`.
pub open spec fn released(s: Session, start: i128, channel: u8, now: i128, later: i128) -> (
    Session,
    OutcomeView,
) {
    let held_ms = millis(start, now);
    let handled = Session { press: PressState::Handled, ..s };
    if held_ms > MAX_HOLD_MS {
        (
            handled,
            OutcomeView {
                notes: seq![Note::ClockAnomaly { held_ms }],
                send: None,
                decision: Decision::Drop,
            },
        )
    } else if held_ms < LONG_PRESS_MS {
        (
            handled,
            OutcomeView {
                notes: seq![Note::ShortPress { held_ms }],
                send: Some(key_down(channel)),
                decision: Decision::Forward,
            },
        )
    } else if cooling_down(s, later) {
        (
            handled,
            OutcomeView {
                notes: seq![Note::Cooldown { held_ms }],
                send: None,
                decision: Decision::Drop,
            },
        )
    } else {
        (
            Session { last_inject_at: Some(later), ..handled },
            OutcomeView {
                notes: seq![Note::FocusRequest { held_ms, channel: s.video_ch }],
                send: Some(native_request(s.video_ch)),
                decision: Decision::Drop,
            },
        )
    }
}

/// A button event that is intercepted, which arrived on the given channel.
pub open spec fn button(s: Session, down: bool, channel: u8, now: i128, later: i128) -> (
    Session,
    OutcomeView,
) {
    match (s.press, down) {
        (PressState::Pressed(_), true) => (
            s,
            OutcomeView { notes: seq![], send: None, decision: Decision::Drop },
        ),
        (_, true) => (
            Session { press: PressState::Pressed(now), ..s },
            OutcomeView { notes: seq![Note::Tracking], send: None, decision: Decision::Drop },
        ),
        (PressState::Pressed(start), false) => released(s, start, channel, now, later),
        (PressState::Handled, false) => (
            Session { press: PressState::Idle, ..s },
            OutcomeView { notes: seq![], send: None, decision: Decision::Drop },
        ),
        (PressState::Idle, false) => (
            s,
            OutcomeView { notes: seq![], send: None, decision: Decision::Forward },
        ),
    }
}

/// The remarks on the packet itself, before any button event is acted on.
pub open spec fn remarks(s: Session, p: PacketView) -> Seq<Note> {
    let lost = if s.focus == FocusState::Projected && noticed(s, p).focus == FocusState::Native {
        seq![Note::FocusLost]
    } else {
        seq![]
    };
    let key = match reported_key(p) {
        Some((keycode, down)) => seq![Note::Key { from: p.proxy_type, keycode, down }],
        None => seq![],
    };
    lost + key
}

/// What a packet makes of a session, and what comes of the packet. A packet that is not
/// intercepted is forwarded.
pub open spec fn step(s: Session, p: PacketView, now: i128, later: i128) -> (
    Session,
    OutcomeView,
) {
    let t = noticed(s, p);
    match intercepted(t, p) {
        Some(down) => {
            let (u, o) = button(t, down, p.channel, now, later);
            (u, OutcomeView { notes: remarks(s, p) + o.notes, ..o })
        },
        None => (
            t,
            OutcomeView { notes: remarks(s, p), send: None, decision: Decision::Forward },
        ),
    }
}

/// The whole milliseconds from one clock reading to another; none if the clock went back.
pub fn elapsed_millis(from: i128, to: i128) -> (ms: u128)
    ensures
        ms == millis(from, to),
        from <= to ==> ms * 1_000_000 <= to - from < (ms + 1) * 1_000_000,
        from > to ==> ms == 0,
{
    if from > to {
        return 0;
    }
    let nanos: u128 = if from >= 0 || to < 0 {
        (to - from) as u128
    } else {
        to as u128 + (-(from + 1)) as u128 + 1
    };
    nanos / 1_000_000
}

impl Session {
    /// A session before its first packet.
    pub fn new() -> (session: Session)
        ensures
            session == fresh(),
    {
        Session {
            press: PressState::Idle,
            video_ch: DEFAULT_VIDEO_CHANNEL,
            channel_learned: false,
            focus: FocusState::Projected,
            last_inject_at: None,
        }
    }

    /// Takes the focus, and at first the video channel, from a notification; remarks on a loss of
    /// focus and on a key; and tells whether the packet is a button event to act on, and if so,
    /// whether the button is down.
    pub fn observe(&mut self, pkt: &Packet) -> (seen: (Vec<Note>, Option<bool>))
        ensures
            *final(self) == noticed(*old(self), pkt@),
            seen.0@ == remarks(*old(self), pkt@),
            seen.1 == intercepted(*final(self), pkt@),
    {
        let mut notes: Vec<Note> = Vec::new();
        let payload: &[u8] = pkt.payload.as_slice();
        if pkt.proxy_type == ProxyType::MobileDevice && pkt.message_id
            == MSG_VIDEO_FOCUS_NOTIFICATION {
            if !self.channel_learned {
                self.video_ch = pkt.channel;
                self.channel_learned = true;
            }
            if payload.len() >= 2 {
                if let Some(focus) = parse_focus(slice_subrange(payload, 2, payload.len())) {
                    let prev: FocusState = self.focus;
                    self.focus = focus;
                    if focus == FocusState::Native && prev == FocusState::Projected {
                        self.press = PressState::Idle;
                        notes.push(Note::FocusLost);
                    }
                }
            }
        }
        if pkt.message_id != MSG_INPUT_REPORT || payload.len() < 2 {
            return (notes, None);
        }
        match parse_key(slice_subrange(payload, 2, payload.len())) {
            None => (notes, None),
            Some((keycode, down)) => {
                notes.push(Note::Key { from: pkt.proxy_type, keycode, down });
                if pkt.proxy_type == ProxyType::MobileDevice && keycode == KEYCODE_TRIGGER
                    && self.focus == FocusState::Projected {
                    (notes, Some(down))
                } else {
                    (notes, None)
                }
            },
        }
    }

    /// Acts on a button event that arrived on the given channel. Its remarks follow those in
    /// `notes`.
    pub fn act(
        &mut self,
        notes: Vec<Note>,
        down: bool,
        channel: u8,
        now: i128,
        later: i128,
    ) -> (outcome: Outcome)
        ensures
            ({
                let (s, o) = button(*old(self), down, channel, now, later);
                &&& *final(self) == s
                &&& outcome@ == (OutcomeView { notes: notes@ + o.notes, ..o })
            }),
    {
        let ghost given = notes@;
        let ghost expected = button(*self, down, channel, now, later).1.notes;
        let mut notes = notes;
        let mut send: Option<Packet> = None;
        let mut decision: Decision = Decision::Drop;
        match (self.press, down) {
            (PressState::Idle, true) | (PressState::Handled, true) => {
                notes.push(Note::Tracking);
                self.press = PressState::Pressed(now);
            },
            (PressState::Pressed(_), true) => {},
            (PressState::Pressed(start), false) => {
                let held_ms: u128 = elapsed_millis(start, now);
                self.press = PressState::Handled;
                if held_ms > MAX_HOLD_MS {
                    notes.push(Note::ClockAnomaly { held_ms });
                } else if held_ms >= LONG_PRESS_MS {
                    let too_soon: bool = match self.last_inject_at {
                        Some(last) => elapsed_millis(last, later) < EXIT_COOLDOWN_MS,
                        None => false,
                    };
                    if too_soon {
                        notes.push(Note::Cooldown { held_ms });
                    } else {
                        self.last_inject_at = Some(later);
                        notes.push(Note::FocusRequest { held_ms, channel: self.video_ch });
                        send = Some(make_native_request(self.video_ch));
                    }
                } else {
                    notes.push(Note::ShortPress { held_ms });
                    send = Some(make_key_down(channel));
                    decision = Decision::Forward;
                }
            },
            (PressState::Handled, false) => {
                self.press = PressState::Idle;
            },
            (PressState::Idle, false) => {
                decision = Decision::Forward;
            },
        }
        assert(notes@ =~= given + expected);
        Outcome { notes, send, decision }
    }

    /// Takes a packet and two clock readings, and says what comes of the packet.
    pub fn modify_packet(&mut self, pkt: &Packet, now: i128, later: i128) -> (outcome: Outcome)
        ensures
            ({
                let (s, o) = step(*old(self), pkt@, now, later);
                &&& *final(self) == s
                &&& outcome@ == o
            }),
    {
        let (notes, event) = self.observe(pkt);
        match event {
            Some(down) => self.act(notes, down, pkt.channel, now, later),
            None => Outcome { notes, send: None, decision: Decision::Forward },
        }
    }
}

} // verus!
