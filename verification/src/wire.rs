//! The protobuf wire format, as far as the hook needs it: varints, tags and field bodies.
//!
//! The spec functions here look at the front of a byte sequence. The executable functions work
//! on a slice and a cursor into it; `rest` is the link between the two.

use vstd::prelude::*;

verus! {

/// The longest varint that is read. Ten groups of seven bits cover sixty-four bits.
pub const MAX_VARINT_BYTES: usize = 10;

/// What a cursor at `pos` still has in front of it. A cursor past the end has nothing.
pub open spec fn rest(data: Seq<u8>, pos: int) -> Seq<u8> {
    if 0 <= pos <= data.len() {
        data.skip(pos)
    } else {
        Seq::empty()
    }
}

/// How many bytes a varint reader takes from the front of `s`, if it may take `limit` bytes: it
/// stops behind the first byte whose high bit is clear.
pub open spec fn varint_run(s: Seq<u8>, limit: nat) -> nat
    decreases limit,
{
    if limit == 0 || s.len() == 0 {
        0
    } else if s[0] < 0x80 {
        1
    } else {
        1 + varint_run(s.skip(1), (limit - 1) as nat)
    }
}

/// The number that the low seven bits of each byte spell, least significant group first.
pub open spec fn base128(s: Seq<u8>) -> nat
    decreases s.len(),
{
    if s.len() == 0 {
        0
    } else {
        (s[0] % 128) as nat + 128 * base128(s.skip(1))
    }
}

/// The varint at the front of `s`: its value, of which the low sixty-four bits are kept, and the
/// number of bytes that it takes. There is none if the bytes end, or the limit is reached,
/// before a byte with a clear high bit.
pub open spec fn varint(s: Seq<u8>) -> Option<(u64, nat)> {
    let n = varint_run(s, MAX_VARINT_BYTES as nat);
    if n > 0 && s[n - 1] < 0x80 {
        Some(((base128(s.take(n as int)) % 0x1_0000_0000_0000_0000) as u64, n))
    } else {
        None
    }
}

/// 128 to the power `i`.
pub open spec fn group_weight(i: nat) -> nat
    decreases i,
{
    if i == 0 {
        1
    } else {
        128 * group_weight((i - 1) as nat)
    }
}

/// One more byte adds its low bits at the weight of its place.
pub proof fn lemma_base128_push(s: Seq<u8>, b: u8)
    ensures
        base128(s.push(b)) == base128(s) + (b % 128) * group_weight(s.len()),
    decreases s.len(),
{
    if s.len() == 0 {
        assert(s.push(b).skip(1) =~= s);
        assert(group_weight(0) == 1);
    } else {
        lemma_base128_push(s.skip(1), b);
        assert(s.push(b).skip(1) =~= s.skip(1).push(b));
        let low = (b % 128) as int;
        let w = group_weight((s.len() - 1) as nat) as int;
        assert(group_weight(s.len()) == 128 * w);
        assert(128 * (low * w) == low * (128 * w)) by (nonlinear_arith);
    }
}

/// While only bytes with the high bit set have been seen, the run goes on behind them.
pub proof fn lemma_run_continues(s: Seq<u8>, k: nat, limit: nat)
    requires
        k <= s.len(),
        k <= limit,
        forall|i: int| 0 <= i < k ==> s[i] >= 0x80,
    ensures
        varint_run(s, limit) == k + varint_run(s.skip(k as int), (limit - k) as nat),
    decreases k,
{
    if k == 0 {
        assert(s.skip(0) =~= s);
    } else {
        lemma_run_continues(s.skip(1), (k - 1) as nat, (limit - 1) as nat);
        assert(s.skip(1).skip(k - 1) =~= s.skip(k as int));
    }
}

/// A reader takes no more than it may, and no more than there is.
pub proof fn lemma_run_bounds(s: Seq<u8>, limit: nat)
    ensures
        varint_run(s, limit) <= limit,
        varint_run(s, limit) <= s.len(),
    decreases limit,
{
    if limit > 0 && s.len() > 0 && s[0] >= 0x80 {
        lemma_run_bounds(s.skip(1), (limit - 1) as nat);
    }
}

/// A varint that is there takes at least one byte, at most ten, and lies within the bytes.
pub proof fn lemma_varint_bounds(s: Seq<u8>)
    ensures
        varint(s) matches Some((_, n)) ==> 1 <= n <= MAX_VARINT_BYTES && n <= s.len(),
{
    lemma_run_bounds(s, MAX_VARINT_BYTES as nat);
}

/// Putting seven bits above the `shift` bits that are there already is an addition; what no
/// longer fits in sixty-four bits is lost.
proof fn lemma_or_group(acc: u64, group: u64, shift: u32)
    requires
        shift <= 63,
        shift <= 56 || shift == 63,
        acc < 1u64 << shift,
        group < 128,
    ensures
        (acc | (group << shift)) as int == (acc + group * (1u64 << shift))
            % 0x1_0000_0000_0000_0000,
        shift <= 56 ==> (acc | (group << shift)) == acc + group * (1u64 << shift),
        shift <= 56 ==> (acc | (group << shift)) < 1u64 << ((shift + 7) as u32),
        shift <= 56 ==> (1u64 << ((shift + 7) as u32)) == 128 * (1u64 << shift),
{
    if shift <= 56 {
        assert((acc | (group << shift)) == acc + group * (1u64 << shift)
            && (acc | (group << shift)) < 1u64 << ((shift + 7) as u32)
            && (1u64 << ((shift + 7) as u32)) == 128 * (1u64 << shift)) by (bit_vector)
            requires
                shift <= 56,
                acc < 1u64 << shift,
                group < 128,
        ;
    } else {
        let odd = group % 2;
        let half = group / 2;
        assert(1u64 << 63u32 == 0x8000_0000_0000_0000u64) by (bit_vector);
        assert((acc | (group << 63u32)) == acc + odd * 0x8000_0000_0000_0000u64) by (bit_vector)
            requires
                acc < 1u64 << 63u32,
                odd == group % 2,
                group < 128,
        ;
        assert(acc + group * 0x8000_0000_0000_0000 == acc + odd * 0x8000_0000_0000_0000 + half
            * 0x1_0000_0000_0000_0000);
    }
}

/// Reads the varint at the cursor, and moves the cursor behind the bytes that were looked at,
/// also where there is no varint.
pub fn read_varint(data: &[u8], pos: &mut usize) -> (value: Option<u64>)
    ensures
        value == (match varint(rest(data@, *old(pos) as int)) {
            Some((v, _)) => Some(v),
            None => None::<u64>,
        }),
        *final(pos) == *old(pos) + varint_run(
            rest(data@, *old(pos) as int),
            MAX_VARINT_BYTES as nat,
        ),
{
    let mut result: u64 = 0;
    let mut shift: u32 = 0;
    let ghost start = *pos as int;
    let ghost s = rest(data@, start);
    let ghost mut i: nat = 0;
    proof {
        assert(s.take(0) =~= Seq::<u8>::empty());
        assert(1u64 << 0u32 == 1u64) by (bit_vector);
        reveal_with_fuel(group_weight, 2);
    }
    loop
        invariant
            s == rest(data@, start),
            start == *old(pos),
            *pos == start + i,
            i < MAX_VARINT_BYTES,
            i <= s.len(),
            forall|j: int| 0 <= j < i ==> s[j] >= 0x80,
            shift == 7 * i,
            result == base128(s.take(i as int)),
            result < 1u64 << shift,
            group_weight(i) == 1u64 << shift,
        decreases MAX_VARINT_BYTES - i,
    {
        proof {
            lemma_run_continues(s, i, MAX_VARINT_BYTES as nat);
        }
        if *pos >= data.len() {
            return None;
        }
        let b: u8 = data[*pos];
        *pos += 1;
        proof {
            assert(b == s[i as int]);
            assert(s.take(i as int + 1) =~= s.take(i as int).push(b));
            lemma_base128_push(s.take(i as int), b);
            assert(b & 0x7F == b % 128) by (bit_vector);
            assert((b & 0x80 == 0) == (b < 0x80)) by (bit_vector);
            lemma_or_group(result, (b & 0x7F) as u64, shift);
            assert(s.skip(i as int)[0] == b);
        }
        result = result | (((b & 0x7F) as u64) << shift);
        if b & 0x80 == 0 {
            return Some(result);
        }
        proof {
            assert(group_weight(i + 1) == 128 * group_weight(i));
            i = i + 1;
            lemma_run_continues(s, i, MAX_VARINT_BYTES as nat);
        }
        shift += 7;
        if shift >= 64 {
            return None;
        }
    }
}

/// What follows the tag of a field, by wire type. A varint carries its value; of the other
/// bodies only the extent matters.
pub enum Body {
    Varint(u64),
    Fixed64,
    Delimited,
    Fixed32,
}

/// A field of a message: its number and its body.
pub struct Field {
    pub number: u32,
    pub body: Body,
}

/// The tag at the front of `s`: the field number, of which the low thirty-two bits are kept, the
/// wire type, and the number of bytes that the tag takes.
pub open spec fn tag(s: Seq<u8>) -> Option<(u32, u64, nat)> {
    match varint(s) {
        Some((v, n)) => Some((((v / 8) % 0x1_0000_0000) as u32, v % 8, n)),
        None => None,
    }
}

/// The length prefix at the front of `s`: the number of bytes that the prefix takes and the
/// number of bytes that it announces. There is none unless that many bytes follow. The announced
/// length is cut to the width of an address.
pub open spec fn delimited(s: Seq<u8>) -> Option<(nat, nat)> {
    match varint(s) {
        Some((v, n)) => if n + (v as usize) <= s.len() {
            Some((n, (v as usize) as nat))
        } else {
            None
        },
        None => None,
    }
}

/// The body at the front of `s` for a field of the given wire type, and the number of bytes that
/// it takes.
pub open spec fn body(s: Seq<u8>, wire: u64) -> Option<(Body, nat)> {
    if wire == 0 {
        match varint(s) {
            Some((v, n)) => Some((Body::Varint(v), n)),
            None => None,
        }
    } else if wire == 1 && s.len() >= 8 {
        Some((Body::Fixed64, 8))
    } else if wire == 2 {
        match delimited(s) {
            Some((n, len)) => Some((Body::Delimited, n + len)),
            None => None,
        }
    } else if wire == 5 && s.len() >= 4 {
        Some((Body::Fixed32, 4))
    } else {
        None
    }
}

/// The field at the front of `s`, and what follows it.
pub open spec fn field(s: Seq<u8>) -> Option<(Field, Seq<u8>)> {
    match tag(s) {
        Some((number, wire, n)) => match body(s.skip(n as int), wire) {
            Some((body, m)) => Some((Field { number, body }, s.skip((n + m) as int))),
            None => None,
        },
        None => None,
    }
}

/// How far the cursor moves over the body of a field. Where the body is malformed, the cursor
/// has still moved over a varint that was looked at.
pub open spec fn skip_run(s: Seq<u8>, wire: u64) -> nat {
    match body(s, wire) {
        Some((_, n)) => n,
        None => if wire == 0 || wire == 2 {
            varint_run(s, MAX_VARINT_BYTES as nat)
        } else {
            0
        },
    }
}

/// A body that is there takes at least one byte and lies within the bytes.
pub proof fn lemma_body_bounds(s: Seq<u8>, wire: u64)
    ensures
        body(s, wire) matches Some((_, n)) ==> 1 <= n <= s.len(),
{
    lemma_varint_bounds(s);
}

/// A field that is there takes at least two bytes.
pub proof fn lemma_field_bounds(s: Seq<u8>)
    ensures
        field(s) matches Some((_, r)) ==> r.len() + 2 <= s.len(),
{
    lemma_varint_bounds(s);
    if let Some((_, wire, n)) = tag(s) {
        lemma_body_bounds(s.skip(n as int), wire);
    }
}

/// A cursor that moves on by `n` leaves behind the first `n` bytes of what was in front of it.
pub proof fn lemma_rest_advance(data: Seq<u8>, pos: int, n: nat)
    requires
        0 <= pos,
        n <= rest(data, pos).len(),
    ensures
        rest(data, pos + n) == rest(data, pos).skip(n as int),
{
    assert(rest(data, pos + n) =~= rest(data, pos).skip(n as int));
}

/// Moves the cursor over the body of a field of the given wire type.
pub fn skip_field(data: &[u8], pos: &mut usize, wire_type: u64) -> (skipped: Option<()>)
    ensures
        skipped is Some <==> body(rest(data@, *old(pos) as int), wire_type) is Some,
        *final(pos) == *old(pos) + skip_run(rest(data@, *old(pos) as int), wire_type),
{
    let ghost s = rest(data@, *pos as int);
    proof {
        lemma_varint_bounds(s);
    }
    match wire_type {
        0 => {
            read_varint(data, pos)?;
        },
        1 => {
            *pos = advance(data, *pos, 8)?;
        },
        2 => {
            let len: usize = read_varint(data, pos)? as usize;
            proof {
                lemma_rest_advance(data@, *old(pos) as int, varint(s).unwrap().1);
            }
            *pos = advance(data, *pos, len)?;
        },
        5 => {
            *pos = advance(data, *pos, 4)?;
        },
        _ => {
            return None;
        },
    }
    Some(())
}

/// The position `len` bytes on, if the slice reaches that far.
pub fn advance(data: &[u8], pos: usize, len: usize) -> (end: Option<usize>)
    ensures
        pos + len <= data.len() ==> end == Some((pos + len) as usize),
        pos + len > data.len() ==> end is None,
{
    match pos.checked_add(len) {
        Some(end) => if end <= data.len() {
            Some(end)
        } else {
            None
        },
        None => None,
    }
}

/// Reads the tag at the cursor: field number and wire type.
pub fn read_tag(data: &[u8], pos: &mut usize) -> (number_and_wire: Option<(u32, u64)>)
    ensures
        number_and_wire == (match tag(rest(data@, *old(pos) as int)) {
            Some((number, wire, _)) => Some((number, wire)),
            None => None::<(u32, u64)>,
        }),
        *final(pos) == *old(pos) + varint_run(
            rest(data@, *old(pos) as int),
            MAX_VARINT_BYTES as nat,
        ),
{
    let v: u64 = read_varint(data, pos)?;
    assert((v >> 3) as u32 == (v / 8) % 0x1_0000_0000) by (bit_vector);
    assert(v & 0x7 == v % 8) by (bit_vector);
    Some(((v >> 3) as u32, v & 0x7))
}

} // verus!
