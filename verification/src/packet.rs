//! Packets as the proxy hands them over, and the ones that the hook makes itself.

use vstd::prelude::*;
use vstd::slice::slice_to_vec;

verus! {

/// `INPUT_MESSAGE_INPUT_REPORT`.
pub const MSG_INPUT_REPORT: u16 = 0x8001;

/// `MEDIA_MESSAGE_VIDEO_FOCUS_REQUEST`.
pub const MSG_VIDEO_FOCUS_REQUEST: u16 = 0x8007;

/// `MEDIA_MESSAGE_VIDEO_FOCUS_NOTIFICATION`.
pub const MSG_VIDEO_FOCUS_NOTIFICATION: u16 = 0x8008;

/// The flags of a packet that is one encrypted frame, first and last at once.
pub const PKT_FLAGS_SINGLE: u8 = 0x0B;

/// The payload of a `VideoFocusRequestNotification { mode: VIDEO_FOCUS_NATIVE, reason: UNKNOWN }`:
/// the message id, field 2 (mode) with value 2, field 3 (reason) with value 0.
pub const VIDEO_FOCUS_NATIVE_PAYLOAD: [u8; 6] = [0x80, 0x07, 0x10, 0x02, 0x18, 0x00];

/// The payload of an `InputReport` with timestamp 0 whose key event holds the trigger key, down,
/// with metastate 0.
///
/// The keycode is spelled out in bytes 9 to 11: they have to change with
/// [`KEYCODE_TRIGGER`](crate::session::KEYCODE_TRIGGER).
pub const SHORT_PRESS_KEY_DOWN: [u8; 16] = [
    0x80,
    0x01,
    0x08,
    0x00,
    0x22,
    0x0A,
    0x0A,
    0x08,
    0x08,
    0x84,
    0x80,
    0x04,
    0x10,
    0x01,
    0x18,
    0x00,
];

/// Which side a packet comes from. A packet from the head unit is on its way to the phone; one
/// from the mobile device is on its way to the head unit.
#[derive(Copy, Clone, Debug, PartialEq, Eq, Structural)]
pub enum ProxyType {
    HeadUnit,
    MobileDevice,
}

/// What the proxy shall do with a packet.
#[derive(Copy, Clone, Debug, PartialEq, Eq, Structural)]
pub enum Decision {
    Forward,
    Drop,
}

/// A packet in the proxy's stream. The payload starts with the two bytes of the message id.
#[derive(Clone, Debug, PartialEq, Eq)]
pub struct Packet {
    pub proxy_type: ProxyType,
    pub channel: u8,
    pub packet_flags: u8,
    pub final_length: Option<u32>,
    pub message_id: u16,
    pub payload: Vec<u8>,
}

/// A packet, with its payload as a sequence.
pub struct PacketView {
    pub proxy_type: ProxyType,
    pub channel: u8,
    pub packet_flags: u8,
    pub final_length: Option<u32>,
    pub message_id: u16,
    pub payload: Seq<u8>,
}

impl View for Packet {
    type V = PacketView;

    open spec fn view(&self) -> PacketView {
        PacketView {
            proxy_type: self.proxy_type,
            channel: self.channel,
            packet_flags: self.packet_flags,
            final_length: self.final_length,
            message_id: self.message_id,
            payload: self.payload@,
        }
    }
}

/// The request to the phone to give up the screen, on the given video channel.
pub open spec fn native_request(channel: u8) -> PacketView {
    PacketView {
        proxy_type: ProxyType::HeadUnit,
        channel,
        packet_flags: PKT_FLAGS_SINGLE,
        final_length: None,
        message_id: MSG_VIDEO_FOCUS_REQUEST,
        payload: VIDEO_FOCUS_NATIVE_PAYLOAD@,
    }
}

/// The press of the trigger key, sent to the phone on the given input channel. The head unit's own
/// brief pulse does not make the phone act; it has to be given the key event.
pub open spec fn key_down(channel: u8) -> PacketView {
    PacketView {
        proxy_type: ProxyType::HeadUnit,
        channel,
        packet_flags: PKT_FLAGS_SINGLE,
        final_length: None,
        message_id: MSG_INPUT_REPORT,
        payload: SHORT_PRESS_KEY_DOWN@,
    }
}

/// Makes the request to the phone to give up the screen.
pub fn make_native_request(channel: u8) -> (packet: Packet)
    ensures
        packet@ == native_request(channel),
        packet.proxy_type == ProxyType::HeadUnit,
        packet.channel == channel,
        packet.packet_flags == 0x0B,
        packet.final_length is None,
        packet.message_id == 0x8007,
        packet.payload@ == seq![0x80u8, 0x07u8, 0x10u8, 0x02u8, 0x18u8, 0x00u8],
{
    Packet {
        proxy_type: ProxyType::HeadUnit,
        channel,
        packet_flags: PKT_FLAGS_SINGLE,
        final_length: None,
        message_id: MSG_VIDEO_FOCUS_REQUEST,
        payload: slice_to_vec(VIDEO_FOCUS_NATIVE_PAYLOAD.as_slice()),
    }
}

/// Makes the press of the trigger key.
pub fn make_key_down(channel: u8) -> (packet: Packet)
    ensures
        packet@ == key_down(channel),
        packet.proxy_type == ProxyType::HeadUnit,
        packet.channel == channel,
        packet.packet_flags == 0x0B,
        packet.final_length is None,
        packet.message_id == 0x8001,
{
    Packet {
        proxy_type: ProxyType::HeadUnit,
        channel,
        packet_flags: PKT_FLAGS_SINGLE,
        final_length: None,
        message_id: MSG_INPUT_REPORT,
        payload: slice_to_vec(SHORT_PRESS_KEY_DOWN.as_slice()),
    }
}

} // verus!
