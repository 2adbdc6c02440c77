//! Input reports: the messages in which button presses travel.
//!
//! An `InputReport` holds a `KeyEvent` in field 4, a `KeyEvent` holds a `Key` in field 1, and a
//! `Key` holds its keycode in field 1 and whether it is down in field 2.
//!
//! A nested message is walked in place: its fields are read until the cursor reaches or passes
//! the end that its length announced, and the walk of the outer message goes on from there. In
//! the spec functions that end is given as `tail`, the number of bytes behind it.

use crate::wire::advance;
use crate::wire::lemma_body_bounds;
use crate::wire::lemma_field_bounds;
use crate::wire::lemma_rest_advance;
use crate::wire::lemma_varint_bounds;
use crate::wire::read_tag;
use crate::wire::read_varint;
use crate::wire::skip_field;
use crate::wire::{body, delimited, field, rest, tag, varint, Field};
use vstd::prelude::*;

verus! {

/// The fields at the front of `s`, read until no more than `tail` bytes are left, and what is
/// left then. There are none if a field on the way is malformed.
pub open spec fn fields(s: Seq<u8>, tail: nat) -> Option<(Seq<Field>, Seq<u8>)>
    decreases s.len(),
{
    if s.len() <= tail {
        Some((Seq::empty(), s))
    } else {
        match field(s) {
            Some((f, r)) => {
                proof {
                    lemma_field_bounds(s);
                }
                match fields(r, tail) {
                    Some((fs, left)) => Some((seq![f] + fs, left)),
                    None => None,
                }
            },
            None => None,
        }
    }
}

/// The value of the last varint field with the given number.
pub open spec fn last_varint(fs: Seq<Field>, number: u32) -> Option<u64>
    decreases fs.len(),
{
    if fs.len() == 0 {
        None
    } else if fs.last().number == number && fs.last().body is Varint {
        Some(fs.last().body->Varint_0)
    } else {
        last_varint(fs.drop_last(), number)
    }
}

/// The keycode among the fields of a `Key`: the low thirty-two bits of field 1.
pub open spec fn keycode_of(fs: Seq<Field>) -> Option<u32> {
    match last_varint(fs, 1) {
        Some(v) => Some((v % 0x1_0000_0000) as u32),
        None => None,
    }
}

/// Whether the fields of a `Key` say that it is down: field 2.
pub open spec fn down_of(fs: Seq<Field>) -> Option<bool> {
    match last_varint(fs, 2) {
        Some(v) => Some(v != 0),
        None => None,
    }
}

/// The fields of a `Key` make a key if they hold both its keycode and whether it is down.
pub open spec fn key_of(fs: Seq<Field>) -> Option<(u32, bool)> {
    match (keycode_of(fs), down_of(fs)) {
        (Some(keycode), Some(down)) => Some((keycode, down)),
        _ => None,
    }
}

/// The nested message at the front of `s`: its bytes with all that follows, and how many bytes
/// that is.
pub open spec fn nested(s: Seq<u8>) -> Option<(Seq<u8>, nat)> {
    match delimited(s) {
        Some((n, len)) => Some((s.skip(n as int), (s.len() - n - len) as nat)),
        None => None,
    }
}

/// The first key of the `KeyEvent` at the front of `s`, which ends `tail` bytes before the end
/// of `s`. Where it holds no key, what the walk leaves. Nothing if the walk meets a malformed
/// field.
pub open spec fn key_event(s: Seq<u8>, tail: nat) -> Option<(Option<(u32, bool)>, Seq<u8>)>
    decreases s.len(),
{
    if s.len() <= tail {
        Some((None, s))
    } else {
        match tag(s) {
            None => None,
            Some((number, wire, n)) => if number == 1 && wire == 2 {
                match nested(s.skip(n as int)) {
                    None => None,
                    Some((inner, inner_tail)) => match fields(inner, inner_tail) {
                        None => None,
                        Some((fs, left)) => if key_of(fs) is Some {
                            Some((key_of(fs), left))
                        } else {
                            proof {
                                lemma_varint_bounds(s);
                                lemma_varint_bounds(s.skip(n as int));
                                lemma_fields_left(inner, inner_tail);
                            }
                            key_event(left, tail)
                        },
                    },
                }
            } else {
                match field(s) {
                    None => None,
                    Some((_, r)) => {
                        proof {
                            lemma_field_bounds(s);
                        }
                        key_event(r, tail)
                    },
                }
            },
        }
    }
}

/// The first key of the `InputReport` that `s` holds: its keycode and whether it is down.
pub open spec fn first_key(s: Seq<u8>) -> Option<(u32, bool)>
    decreases s.len(),
{
    if s.len() == 0 {
        None
    } else {
        match tag(s) {
            None => None,
            Some((number, wire, n)) => if number == 4 && wire == 2 {
                match nested(s.skip(n as int)) {
                    None => None,
                    Some((inner, inner_tail)) => match key_event(inner, inner_tail) {
                        None => None,
                        Some((Some(key), _)) => Some(key),
                        Some((None, left)) => {
                            proof {
                                lemma_varint_bounds(s);
                                lemma_varint_bounds(s.skip(n as int));
                                lemma_key_event_left(inner, inner_tail);
                            }
                            first_key(left)
                        },
                    },
                }
            } else {
                match field(s) {
                    None => None,
                    Some((_, r)) => {
                        proof {
                            lemma_field_bounds(s);
                        }
                        first_key(r)
                    },
                }
            },
        }
    }
}

/// A walk over fields leaves no more than it was given.
pub proof fn lemma_fields_left(s: Seq<u8>, tail: nat)
    ensures
        fields(s, tail) matches Some((_, left)) ==> left.len() <= s.len(),
    decreases s.len(),
{
    if s.len() > tail {
        if let Some((_, r)) = field(s) {
            lemma_field_bounds(s);
            lemma_fields_left(r, tail);
        }
    }
}

/// A walk over a `KeyEvent` leaves no more than it was given.
pub proof fn lemma_key_event_left(s: Seq<u8>, tail: nat)
    ensures
        key_event(s, tail) matches Some((_, left)) ==> left.len() <= s.len(),
    decreases s.len(),
{
    if s.len() > tail {
        lemma_varint_bounds(s);
        if let Some((number, wire, n)) = tag(s) {
            if number == 1 && wire == 2 {
                lemma_varint_bounds(s.skip(n as int));
                if let Some((inner, inner_tail)) = nested(s.skip(n as int)) {
                    lemma_fields_left(inner, inner_tail);
                    if let Some((_, left)) = fields(inner, inner_tail) {
                        lemma_key_event_left(left, tail);
                    }
                }
            } else if let Some((_, r)) = field(s) {
                lemma_field_bounds(s);
                lemma_key_event_left(r, tail);
            }
        }
    }
}

/// Walks the fields of a `Key` that ends at `end`: keycode and whether it is down, each if it is
/// there.
fn read_key(data: &[u8], pos: &mut usize, end: usize) -> (found: Option<
    (Option<u32>, Option<bool>),
>)
    requires
        *old(pos) <= data.len(),
        end <= data.len(),
    ensures
        match fields(rest(data@, *old(pos) as int), (data.len() - end) as nat) {
            None => found is None,
            Some((fs, left)) => {
                &&& found == Some((keycode_of(fs), down_of(fs)))
                &&& *final(pos) <= data.len()
                &&& left == rest(data@, *final(pos) as int)
            },
        },
{
    let mut keycode: Option<u32> = None;
    let mut down: Option<bool> = None;
    let ghost whole = fields(rest(data@, *pos as int), (data.len() - end) as nat);
    let ghost mut seen: Seq<Field> = Seq::empty();
    proof {
        if let Some((fs, _)) = whole {
            assert(seen + fs =~= fs);
        }
    }
    while *pos < end
        invariant
            *pos <= data.len(),
            end <= data.len(),
            whole == fields(rest(data@, *old(pos) as int), (data.len() - end) as nat),
            keycode == keycode_of(seen),
            down == down_of(seen),
            whole == (match fields(rest(data@, *pos as int), (data.len() - end) as nat) {
                Some((fs, left)) => Some((seen + fs, left)),
                None => None,
            }),
        decreases data.len() - *pos,
    {
        let ghost s = rest(data@, *pos as int);
        let ghost start = *pos as int;
        proof {
            lemma_varint_bounds(s);
            lemma_field_bounds(s);
        }
        let (number, wire) = read_tag(data, pos)?;
        let ghost n = tag(s).unwrap().2;
        let ghost after = s.skip(n as int);
        proof {
            lemma_rest_advance(data@, start, n);
            lemma_varint_bounds(after);
            lemma_body_bounds(after, wire);
        }
        if number == 1 && wire == 0 {
            let v: u64 = read_varint(data, pos)?;
            assert(v as u32 == v % 0x1_0000_0000) by (bit_vector);
            keycode = Some(v as u32);
        } else if number == 2 && wire == 0 {
            let v: u64 = read_varint(data, pos)?;
            down = Some(v != 0);
        } else {
            skip_field(data, pos, wire)?;
        }
        proof {
            let (f, r) = field(s).unwrap();
            let m = body(after, wire).unwrap().1;
            lemma_rest_advance(data@, start, n + m);
            assert(seen.push(f).drop_last() =~= seen);
            if let Some((fs, _)) = fields(r, (data.len() - end) as nat) {
                assert(seen + (seq![f] + fs) =~= seen.push(f) + fs);
            }
            seen = seen.push(f);
        }
    }
    proof {
        assert(seen + Seq::<Field>::empty() =~= seen);
    }
    Some((keycode, down))
}

/// Reads the length prefix of a nested message, leaves the cursor at the message, and gives the
/// position of its end.
fn enter(data: &[u8], pos: &mut usize) -> (end: Option<usize>)
    requires
        *old(pos) <= data.len(),
    ensures
        match nested(rest(data@, *old(pos) as int)) {
            None => end is None,
            Some((inner, tail)) => {
                &&& end matches Some(e) && e <= data.len() && data.len() - e == tail
                &&& *old(pos) < *final(pos) <= data.len()
                &&& inner == rest(data@, *final(pos) as int)
            },
        },
{
    let ghost s = rest(data@, *pos as int);
    proof {
        lemma_varint_bounds(s);
    }
    let len: usize = read_varint(data, pos)? as usize;
    proof {
        lemma_rest_advance(data@, *old(pos) as int, varint(s).unwrap().1);
    }
    advance(data, *pos, len)
}

/// Walks a `KeyEvent` that ends at `end`, up to and including its first key.
fn read_key_event(data: &[u8], pos: &mut usize, end: usize) -> (found: Option<
    Option<(u32, bool)>,
>)
    requires
        *old(pos) <= data.len(),
        end <= data.len(),
    ensures
        match key_event(rest(data@, *old(pos) as int), (data.len() - end) as nat) {
            None => found is None,
            Some((key, left)) => {
                &&& found == Some(key)
                &&& *final(pos) <= data.len()
                &&& left == rest(data@, *final(pos) as int)
            },
        },
{
    while *pos < end
        invariant
            *pos <= data.len(),
            end <= data.len(),
            key_event(rest(data@, *old(pos) as int), (data.len() - end) as nat) == key_event(
                rest(data@, *pos as int),
                (data.len() - end) as nat,
            ),
        decreases data.len() - *pos,
    {
        let ghost s = rest(data@, *pos as int);
        let ghost start = *pos as int;
        proof {
            lemma_varint_bounds(s);
            lemma_field_bounds(s);
        }
        let (number, wire) = read_tag(data, pos)?;
        let ghost n = tag(s).unwrap().2;
        let ghost after = s.skip(n as int);
        proof {
            lemma_rest_advance(data@, start, n);
            lemma_body_bounds(after, wire);
        }
        if number == 1 && wire == 2 {
            let key_end: usize = enter(data, pos)?;
            proof {
                lemma_fields_left(rest(data@, *pos as int), (data.len() - key_end) as nat);
            }
            if let (Some(keycode), Some(down)) = read_key(data, pos, key_end)? {
                return Some(Some((keycode, down)));
            }
        } else {
            skip_field(data, pos, wire)?;
            proof {
                lemma_rest_advance(data@, start, n + body(after, wire).unwrap().1);
            }
        }
    }
    Some(None)
}

/// Finds the first key in the bytes of an `InputReport`: its keycode and whether it is down.
pub fn parse_key(data: &[u8]) -> (key: Option<(u32, bool)>)
    ensures
        key == first_key(data@),
{
    let mut pos: usize = 0;
    assert(rest(data@, 0) =~= data@);
    while pos < data.len()
        invariant
            pos <= data.len(),
            first_key(data@) == first_key(rest(data@, pos as int)),
        decreases data.len() - pos,
    {
        let ghost s = rest(data@, pos as int);
        let ghost start = pos as int;
        proof {
            lemma_varint_bounds(s);
            lemma_field_bounds(s);
        }
        let (number, wire) = read_tag(data, &mut pos)?;
        let ghost n = tag(s).unwrap().2;
        let ghost after = s.skip(n as int);
        proof {
            lemma_rest_advance(data@, start, n);
            lemma_body_bounds(after, wire);
        }
        if number == 4 && wire == 2 {
            let event_end: usize = enter(data, &mut pos)?;
            proof {
                lemma_key_event_left(rest(data@, pos as int), (data.len() - event_end) as nat);
            }
            if let Some(key) = read_key_event(data, &mut pos, event_end)? {
                return Some(key);
            }
        } else {
            skip_field(data, &mut pos, wire)?;
            proof {
                lemma_rest_advance(data@, start, n + body(after, wire).unwrap().1);
            }
        }
    }
    None
}

} // verus!
