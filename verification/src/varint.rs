//! LEB128 varints as the decoder of `varint_simd` reads them, and the one
//! decode step that the benchmark repeats.

use vstd::prelude::*;
use vstd::pervasive::unreached;
use varint_simd::VarIntDecodeError;
use crate::scenario::ScenarioKind;
use crate::stream::PADDING;

verus! {

/// Number of leading bytes that the decoder inspects for the end of a varint.
pub const SCAN_LIMIT: usize = 8;

/// Number of bytes that the varint at the start of `s` occupies when at most
/// `limit` bytes are inspected: up to and including the first byte whose
/// continuation bit is clear, and `limit` where none of them has it clear.
pub open spec fn span(s: Seq<u8>, limit: nat) -> int
    decreases limit,
{
    if limit <= 1 || s[0] < 0x80 {
        1
    } else {
        1 + span(s.drop_first(), (limit - 1) as nat)
    }
}

/// Number of bytes that the varint at the start of `s` occupies.
pub open spec fn varint_len(s: Seq<u8>) -> int {
    span(s, SCAN_LIMIT as nat)
}

/// The number that the low seven bits of the first `len` bytes of `s` spell,
/// least significant group first.
pub open spec fn payload(s: Seq<u8>, len: int) -> int
    decreases len,
{
    if len <= 0 {
        0
    } else {
        (s[0] % 128) as int + 128 * payload(s.drop_first(), len - 1)
    }
}

impl ScenarioKind {
    /// Length of the longest varint that fits the width.
    pub open spec fn max_varint_bytes(self) -> int {
        match self {
            ScenarioKind::U8 => 2,
            ScenarioKind::U16 => 3,
        }
    }

    /// Largest last byte of a varint of the longest length that still fits
    /// the width.
    pub open spec fn max_last_varint_byte(self) -> int {
        match self {
            ScenarioKind::U8 => 1,
            ScenarioKind::U16 => 3,
        }
    }

    /// Largest value of the width.
    pub open spec fn max_value(self) -> int {
        match self {
            ScenarioKind::U8 => 0xff,
            ScenarioKind::U16 => 0xffff,
        }
    }
}

/// Whether the varint at the start of `s` is too wide for `kind`: it is
/// longer than the longest that fits, or as long and with a last byte that
/// is too large.
pub open spec fn overflows(s: Seq<u8>, kind: ScenarioKind) -> bool {
    let len = varint_len(s);
    let max = kind.max_varint_bytes();
    len > max || (len == max && s[max - 1] > kind.max_last_varint_byte())
}

/// The value and the length of the varint at the start of `s`, where it fits
/// `kind`.
pub open spec fn decoded(s: Seq<u8>, kind: ScenarioKind) -> Option<(int, int)> {
    if overflows(s, kind) {
        None
    } else {
        Some((payload(s, varint_len(s)), varint_len(s)))
    }
}

/// What one decode step at the start of `s` yields: the value to fold into
/// the sink and the number of bytes to skip. A varint too wide for `kind`
/// is skipped whole and folds in nothing.
pub open spec fn step_of(s: Seq<u8>, kind: ScenarioKind) -> (int, int) {
    match decoded(s, kind) {
        Some(pair) => pair,
        None => (0, varint_len(s)),
    }
}

/// `varint_simd::VarIntDecodeError`, the reason a decode failed. Nothing is
/// known of what it holds.
#[verifier::external_type_specification]
#[verifier::external_body]
pub struct ExVarIntDecodeError(varint_simd::VarIntDecodeError);

/// `varint_simd::decode::<u8>` on a window of at least `PADDING` bytes.
///
/// Trusted: on such a window the call cannot run out of bytes, so it fails
/// exactly on a varint too wide for eight bits; otherwise it returns the
/// LEB128 value and the length of the varint at the start of the window.
#[verifier::external_body]
fn decode_u8(window: &[u8]) -> (r: Result<(u8, usize), VarIntDecodeError>)
    requires
        window@.len() >= PADDING,
    ensures
        r is Ok <==> decoded(window@, ScenarioKind::U8) is Some,
        r matches Ok((value, len)) ==> decoded(window@, ScenarioKind::U8) == Some(
            (value as int, len as int),
        ),
{
    varint_simd::decode::<u8>(window)
}

/// `varint_simd::decode::<u16>` on a window of at least `PADDING` bytes.
///
/// Trusted: on such a window the call cannot run out of bytes, so it fails
/// exactly on a varint too wide for sixteen bits; otherwise it returns the
/// LEB128 value and the length of the varint at the start of the window.
#[verifier::external_body]
fn decode_u16(window: &[u8]) -> (r: Result<(u16, usize), VarIntDecodeError>)
    requires
        window@.len() >= PADDING,
    ensures
        r is Ok <==> decoded(window@, ScenarioKind::U16) is Some,
        r matches Ok((value, len)) ==> decoded(window@, ScenarioKind::U16) == Some(
            (value as int, len as int),
        ),
{
    varint_simd::decode::<u16>(window)
}

/// `varint_simd::decode_len::<u8>` on a window of at least `PADDING` bytes.
///
/// Trusted: the call fails only on an empty slice, so here it succeeds; it
/// returns the length of the varint at the start of the window, whether or
/// not its value fits eight bits.
#[verifier::external_body]
fn decode_len_u8(window: &[u8]) -> (r: Result<usize, VarIntDecodeError>)
    requires
        window@.len() >= PADDING,
    ensures
        r is Ok,
        r matches Ok(len) ==> len == varint_len(window@),
{
    varint_simd::decode_len::<u8>(window)
}

/// `varint_simd::decode_len::<u16>` on a window of at least `PADDING` bytes.
///
/// Trusted: the call fails only on an empty slice, so here it succeeds; it
/// returns the length of the varint at the start of the window, whether or
/// not its value fits sixteen bits.
#[verifier::external_body]
fn decode_len_u16(window: &[u8]) -> (r: Result<usize, VarIntDecodeError>)
    requires
        window@.len() >= PADDING,
    ensures
        r is Ok,
        r matches Ok(len) ==> len == varint_len(window@),
{
    varint_simd::decode_len::<u16>(window)
}

/// Decodes the varint at the start of `window` for a scenario of `kind`.
///
/// Returns the value to fold into the sink and the number of bytes that the
/// varint occupies.
pub fn decode_next(window: &[u8], kind: ScenarioKind) -> (r: (u64, usize))
    requires
        window@.len() >= PADDING,
    ensures
        (r.0 as int, r.1 as int) == step_of(window@, kind),
        1 <= r.1 <= SCAN_LIMIT,
        r.0 <= kind.max_value(),
{
    proof {
        lemma_span_bounds(window@, SCAN_LIMIT as nat);
    }
    match kind {
        ScenarioKind::U8 => match decode_u8(window) {
            Ok((value, len)) => (value as u64, len),
            Err(_) => match decode_len_u8(window) {
                Ok(len) => (0, len),
                Err(_) => unreached(),
            },
        },
        ScenarioKind::U16 => match decode_u16(window) {
            Ok((value, len)) => (value as u64, len),
            Err(_) => match decode_len_u16(window) {
                Ok(len) => (0, len),
                Err(_) => unreached(),
            },
        },
    }
}

/// A varint occupies at least one byte and at most the bytes inspected.
pub proof fn lemma_span_bounds(s: Seq<u8>, limit: nat)
    requires
        limit >= 1,
    ensures
        1 <= span(s, limit) <= limit,
    decreases limit,
{
    if limit > 1 && s[0] >= 0x80 {
        lemma_span_bounds(s.drop_first(), (limit - 1) as nat);
    }
}

/// A varint that fits a width has a value of that width, and is no longer
/// than the longest varint of that width.
pub proof fn lemma_decoded_fits(s: Seq<u8>, kind: ScenarioKind)
    requires
        s.len() >= kind.max_varint_bytes(),
    ensures
        decoded(s, kind) matches Some((value, len)) ==> 0 <= value <= kind.max_value() && 1 <= len
            <= kind.max_varint_bytes(),
{
    reveal_with_fuel(span, 4);
    reveal_with_fuel(payload, 4);
    lemma_span_bounds(s, SCAN_LIMIT as nat);
}

/// A byte with a clear continuation bit is a whole varint: it decodes to
/// itself and occupies one byte, at either width.
pub proof fn lemma_single_byte(s: Seq<u8>, kind: ScenarioKind)
    requires
        s.len() >= 1,
        s[0] < 0x80,
    ensures
        step_of(s, kind) == (s[0] as int, 1int),
{
    reveal_with_fuel(payload, 2);
}

/// A byte with its continuation bit set, followed by one with it clear,
/// occupies two bytes at either width, whether or not the value fits.
pub proof fn lemma_two_bytes(s: Seq<u8>, kind: ScenarioKind)
    requires
        s.len() >= 2,
        s[0] >= 0x80,
        s[1] < 0x80,
    ensures
        step_of(s, kind).1 == 2,
        !overflows(s, kind) ==> step_of(s, kind).0 == (s[0] - 0x80) + 0x80 * s[1],
{
    reveal_with_fuel(span, 3);
    reveal_with_fuel(payload, 3);
}

} // verus!
