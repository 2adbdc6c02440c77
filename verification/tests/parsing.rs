use aa_minimize_wasm::focus::{parse_focus, FocusState};
use aa_minimize_wasm::input::parse_key;
use aa_minimize_wasm::packet::{SHORT_PRESS_KEY_DOWN, VIDEO_FOCUS_NATIVE_PAYLOAD};
use aa_minimize_wasm::session::KEYCODE_TRIGGER;
use aa_minimize_wasm::wire::{advance, read_tag, read_varint, skip_field};

fn varint_at(data: &[u8], start: usize) -> (Option<u64>, usize) {
    let mut pos = start;
    let value = read_varint(data, &mut pos);
    (value, pos)
}

fn skip_at(data: &[u8], start: usize, wire: u64) -> (bool, usize) {
    let mut pos = start;
    let skipped = skip_field(data, &mut pos, wire).is_some();
    (skipped, pos)
}

fn encode_varint(mut v: u64) -> Vec<u8> {
    let mut out = Vec::new();
    while v >= 128 {
        out.push((v % 128) as u8 + 128);
        v /= 128;
    }
    out.push(v as u8);
    out
}

fn varint_field(number: u64, v: u64) -> Vec<u8> {
    let mut out = encode_varint(number * 8);
    out.extend(encode_varint(v));
    out
}

fn delimited_field(number: u64, bytes: &[u8]) -> Vec<u8> {
    let mut out = encode_varint(number * 8 + 2);
    out.extend(encode_varint(bytes.len() as u64));
    out.extend_from_slice(bytes);
    out
}

fn key(keycode: u64, down: u64) -> Vec<u8> {
    let mut out = varint_field(1, keycode);
    out.extend(varint_field(2, down));
    out
}

#[test]
fn varints_of_one_and_two_bytes() {
    assert_eq!(varint_at(&[0x00], 0), (Some(0), 1));
    assert_eq!(varint_at(&[0x7F], 0), (Some(127), 1));
    assert_eq!(varint_at(&[0x96, 0x01], 0), (Some(150), 2));
    assert_eq!(varint_at(&[0x96, 0x01, 0x55], 0), (Some(150), 2));
}

#[test]
fn varint_in_the_middle() {
    assert_eq!(varint_at(&[0xFF, 0x84, 0x80, 0x04, 0x10], 1), (Some(65540), 4));
}

#[test]
fn varint_that_is_not_minimal() {
    assert_eq!(varint_at(&[0x81, 0x80, 0x00], 0), (Some(1), 3));
}

#[test]
fn varint_cut_short_moves_over_what_is_there() {
    assert_eq!(varint_at(&[], 0), (None, 0));
    assert_eq!(varint_at(&[0x80], 0), (None, 1));
    assert_eq!(varint_at(&[0x80, 0xFF], 0), (None, 2));
    assert_eq!(varint_at(&[0x01], 5), (None, 5));
    assert_eq!(varint_at(&[0x01], usize::MAX), (None, usize::MAX));
}

#[test]
fn varint_of_ten_bytes_keeps_sixty_four_bits() {
    let max = [0xFF, 0xFF, 0xFF, 0xFF, 0xFF, 0xFF, 0xFF, 0xFF, 0xFF, 0x01];
    assert_eq!(varint_at(&max, 0), (Some(u64::MAX), 10));
    let above = [0xFF, 0xFF, 0xFF, 0xFF, 0xFF, 0xFF, 0xFF, 0xFF, 0xFF, 0x7F];
    assert_eq!(varint_at(&above, 0), (Some(u64::MAX), 10));
    let even = [0x80, 0x80, 0x80, 0x80, 0x80, 0x80, 0x80, 0x80, 0x80, 0x02];
    assert_eq!(varint_at(&even, 0), (Some(0), 10));
}

#[test]
fn varint_of_eleven_bytes_is_none() {
    let long = [0x80, 0x80, 0x80, 0x80, 0x80, 0x80, 0x80, 0x80, 0x80, 0x80, 0x00];
    assert_eq!(varint_at(&long, 0), (None, 10));
}

#[test]
fn varints_are_read_back() {
    for v in [0, 1, 127, 128, 300, 65540, u32::MAX as u64, 1 << 63, u64::MAX] {
        let mut bytes = encode_varint(v);
        let len = bytes.len();
        bytes.push(0xAA);
        assert_eq!(varint_at(&bytes, 0), (Some(v), len));
    }
}

#[test]
fn tags_split_into_number_and_wire_type() {
    let mut pos = 0;
    assert_eq!(read_tag(&[0x22], &mut pos), Some((4, 2)));
    assert_eq!(pos, 1);
    let mut pos = 0;
    assert_eq!(read_tag(&encode_varint((1 << 35) + 13), &mut pos), Some((1, 5)));
    let mut pos = 0;
    assert_eq!(read_tag(&[0x80], &mut pos), None);
}

#[test]
fn advance_stays_within_the_slice() {
    assert_eq!(advance(&[1, 2, 3], 1, 2), Some(3));
    assert_eq!(advance(&[1, 2, 3], 1, 3), None);
    assert_eq!(advance(&[1, 2, 3], 3, 0), Some(3));
    assert_eq!(advance(&[1, 2, 3], 1, usize::MAX), None);
}

#[test]
fn skip_varint() {
    assert_eq!(skip_at(&[0x96, 0x01, 0x00], 0, 0), (true, 2));
    assert_eq!(skip_at(&[0x96], 0, 0), (false, 1));
}

#[test]
fn skip_fixed() {
    let bytes = [0u8; 9];
    assert_eq!(skip_at(&bytes, 1, 1), (true, 9));
    assert_eq!(skip_at(&bytes, 2, 1), (false, 2));
    assert_eq!(skip_at(&bytes, 5, 5), (true, 9));
    assert_eq!(skip_at(&bytes, 6, 5), (false, 6));
    assert_eq!(skip_at(&bytes, usize::MAX, 5), (false, usize::MAX));
}

#[test]
fn skip_delimited() {
    assert_eq!(skip_at(&[0x02, 0xAA, 0xBB, 0xCC], 0, 2), (true, 3));
    assert_eq!(skip_at(&[0x00], 0, 2), (true, 1));
    assert_eq!(skip_at(&[0x04, 0xAA, 0xBB, 0xCC], 0, 2), (false, 1));
    assert_eq!(skip_at(&[0x80], 0, 2), (false, 1));
    let huge = [0xFF, 0xFF, 0xFF, 0xFF, 0xFF, 0xFF, 0xFF, 0xFF, 0xFF, 0x01];
    assert_eq!(skip_at(&huge, 0, 2), (false, 10));
}

#[test]
fn skip_unknown_wire_types() {
    for wire in [3, 4, 6, 7, 8, u64::MAX] {
        assert_eq!(skip_at(&[0x01, 0x02, 0x03], 1, wire), (false, 1));
    }
}

#[test]
fn key_of_nothing() {
    assert_eq!(parse_key(&[]), None);
}

#[test]
fn key_of_the_fixed_payload() {
    assert_eq!(parse_key(&SHORT_PRESS_KEY_DOWN[2..]), Some((KEYCODE_TRIGGER, true)));
    let mut up = SHORT_PRESS_KEY_DOWN;
    up[13] = 0;
    assert_eq!(parse_key(&up[2..]), Some((65540, false)));
}

#[test]
fn keys_are_read_back() {
    for keycode in [0, 3, 84, 127, 128, 65540, u32::MAX as u64] {
        for down in [0, 1] {
            let mut report = varint_field(1, 123456789);
            report.extend(delimited_field(4, &delimited_field(1, &key(keycode, down))));
            assert_eq!(parse_key(&report), Some((keycode as u32, down == 1)));
        }
    }
}

#[test]
fn keycode_keeps_thirty_two_bits() {
    let report = delimited_field(4, &delimited_field(1, &key((1 << 32) + 7, 5)));
    assert_eq!(parse_key(&report), Some((7, true)));
}

#[test]
fn first_key_counts() {
    let mut event = delimited_field(1, &key(3, 1));
    event.extend(delimited_field(1, &key(4, 0)));
    let mut report = delimited_field(4, &event);
    assert_eq!(parse_key(&report), Some((3, true)));
    report.push(0xFF);
    assert_eq!(parse_key(&report), Some((3, true)));
}

#[test]
fn last_field_of_a_key_counts() {
    let mut k = key(3, 1);
    k.extend(key(4, 0));
    let report = delimited_field(4, &delimited_field(1, &k));
    assert_eq!(parse_key(&report), Some((4, false)));
}

#[test]
fn incomplete_key_is_passed_over() {
    let mut event = delimited_field(1, &varint_field(1, 9));
    event.extend(delimited_field(1, &key(4, 1)));
    let report = delimited_field(4, &event);
    assert_eq!(parse_key(&report), Some((4, true)));
    let mut two = delimited_field(4, &delimited_field(1, &varint_field(2, 1)));
    two.extend(delimited_field(4, &delimited_field(1, &key(5, 0))));
    assert_eq!(parse_key(&two), Some((5, false)));
    assert_eq!(parse_key(&delimited_field(4, &[])), None);
}

#[test]
fn other_fields_of_a_report_are_skipped() {
    let mut report = varint_field(1, 7);
    report.extend([0x11, 1, 2, 3, 4, 5, 6, 7, 8]);
    report.extend([0x1D, 1, 2, 3, 4]);
    report.extend(delimited_field(3, &[0xFF, 0xFF]));
    report.extend(varint_field(4, 1));
    let mut event = varint_field(7, 1);
    event.extend(delimited_field(1, &{
        let mut k = varint_field(3, 1);
        k.extend(delimited_field(1, &[1]));
        k.extend(key(88, 1));
        k
    }));
    report.extend(delimited_field(4, &event));
    assert_eq!(parse_key(&report), Some((88, true)));
}

#[test]
fn malformed_reports_have_no_key() {
    let good = delimited_field(4, &delimited_field(1, &key(3, 1)));
    for n in 0..good.len() {
        assert_eq!(parse_key(&good[..n]), None);
    }
    assert_eq!(parse_key(&[0x80]), None);
    assert_eq!(parse_key(&[0x23, 0x00]), None);
    let mut bad_first = vec![0x0B];
    bad_first.extend(&good);
    assert_eq!(parse_key(&bad_first), None);
    let bad_key = delimited_field(4, &delimited_field(1, &[0x0E]));
    assert_eq!(parse_key(&bad_key), None);
}

#[test]
fn key_may_run_over_its_announced_end() {
    // The key announces three bytes; its last field starts within them and ends behind them.
    let mut report = vec![0x22, 0x06, 0x0A, 0x03, 0x08, 0x05, 0x10, 0x01];
    assert_eq!(parse_key(&report), Some((5, true)));
    report[7] = 0x00;
    assert_eq!(parse_key(&report), Some((5, false)));
}

#[test]
fn focus_modes() {
    assert_eq!(parse_focus(&[0x10, 0x01]), Some(FocusState::Projected));
    assert_eq!(parse_focus(&[0x10, 0x02]), Some(FocusState::Native));
    assert_eq!(parse_focus(&[0x10, 0x00]), None);
    assert_eq!(parse_focus(&[0x10, 0x03]), None);
    assert_eq!(parse_focus(&VIDEO_FOCUS_NATIVE_PAYLOAD[2..]), Some(FocusState::Native));
}

#[test]
fn first_focus_mode_counts() {
    assert_eq!(parse_focus(&[0x10, 0x02, 0x10, 0x01]), Some(FocusState::Native));
    assert_eq!(parse_focus(&[0x10, 0x07, 0x10, 0x01]), None);
    assert_eq!(parse_focus(&[0x10, 0x01, 0xFF]), Some(FocusState::Projected));
}

#[test]
fn focus_behind_other_fields() {
    assert_eq!(parse_focus(&[0x08, 0x02, 0x12, 0x01, 0xAA, 0x10, 0x01]), Some(FocusState::Projected));
    assert_eq!(parse_focus(&[0x08, 0x02]), None);
}

#[test]
fn malformed_notifications_have_no_focus() {
    assert_eq!(parse_focus(&[]), None);
    assert_eq!(parse_focus(&[0x10]), None);
    assert_eq!(parse_focus(&[0x10, 0x80]), None);
    assert_eq!(parse_focus(&[0x0B, 0x10, 0x01]), None);
    assert_eq!(parse_focus(&[0x1A, 0x05, 0x10, 0x01]), None);
}
