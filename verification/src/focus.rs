//! Video focus notifications: the phone says whether it projects.

use crate::wire::lemma_body_bounds;
use crate::wire::lemma_field_bounds;
use crate::wire::lemma_rest_advance;
use crate::wire::lemma_varint_bounds;
use crate::wire::read_tag;
use crate::wire::read_varint;
use crate::wire::skip_field;
use crate::wire::{body, field, rest, tag};
use vstd::prelude::*;

verus! {

/// Who has the screen: Android Auto, or the car's own interface.
///
/// During a call, and while Android Auto is in the background, the focus is native, and the
/// button has to keep its own meaning.
#[derive(Copy, Clone, Debug, PartialEq, Eq, Structural)]
pub enum FocusState {
    Projected,
    Native,
}

/// The focus that a `VideoFocusMode` value stands for.
pub open spec fn mode(v: u64) -> Option<FocusState> {
    if v == 1 {
        Some(FocusState::Projected)
    } else if v == 2 {
        Some(FocusState::Native)
    } else {
        None
    }
}

/// The focus in the `VideoFocusNotification` that `s` holds: the mode in the first varint field
/// with number 2. Nothing if a field before it is malformed.
pub open spec fn focus_of(s: Seq<u8>) -> Option<FocusState>
    decreases s.len(),
{
    if s.len() == 0 {
        None
    } else {
        match field(s) {
            None => None,
            Some((f, r)) => if f.number == 2 && f.body is Varint {
                mode(f.body->Varint_0)
            } else {
                proof {
                    lemma_field_bounds(s);
                }
                focus_of(r)
            },
        }
    }
}

/// Finds the focus in the bytes of a `VideoFocusNotification`.
pub fn parse_focus(data: &[u8]) -> (focus: Option<FocusState>)
    ensures
        focus == focus_of(data@),
{
    let mut pos: usize = 0;
    assert(rest(data@, 0) =~= data@);
    while pos < data.len()
        invariant
            pos <= data.len(),
            focus_of(data@) == focus_of(rest(data@, pos as int)),
        decreases data.len() - pos,
    {
        let ghost s = rest(data@, pos as int);
        let ghost start = pos as int;
        proof {
            lemma_varint_bounds(s);
            lemma_field_bounds(s);
        }
        let (number, wire) = read_tag(data, &mut pos)?;
        let ghost n = tag(s).unwrap().2;
        let ghost after = s.skip(n as int);
        proof {
            lemma_rest_advance(data@, start, n);
            lemma_body_bounds(after, wire);
        }
        if number == 2 && wire == 0 {
            return match read_varint(data, &mut pos)? {
                1 => Some(FocusState::Projected),
                2 => Some(FocusState::Native),
                _ => None,
            };
        }
        skip_field(data, &mut pos, wire)?;
        proof {
            lemma_rest_advance(data@, start, n + body(after, wire).unwrap().1);
        }
    }
    None
}

} // verus!
