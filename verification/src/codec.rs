//! Deterministic wire codec.
//!
//! Every message on the wire is a 4-byte big-endian length followed by a
//! compact binary payload. Unsigned integers use a variable-length
//! little-endian form: values below 251 are one byte; larger values are a
//! marker byte (251, 252, 253) followed by 2, 4, or 8 little-endian bytes.
//! Signed integers are zigzag-folded into unsigned ones. Enum discriminants
//! are stable ordinals in declaration order, encoded like unsigned
//! integers. Strings and byte arrays are a length followed by their bytes;
//! machine identifiers are 16 fixed little-endian bytes; the 64-bit float
//! bit patterns of input events are 8 fixed little-endian bytes. Equal
//! values encode to identical bytes, and decoding is proved to invert
//! encoding.

use vstd::prelude::*;

use crate::event::ButtonState;
use crate::event::InputEvent;
use crate::event::KeyCode;
use crate::event::MouseButton;
use crate::event::ScrollAxis;
use crate::event::ScrollDirection;
use crate::screen::ScreenEdge;
use crate::device::DeviceInfo;
use crate::message::ClipboardContent;
use crate::message::ClipboardMessage;
use crate::message::ControlMessage;
use crate::message::InputMessage;
use crate::message::Message;
use crate::message::utf8_from_bytes;
use crate::errors::ProtocolError;
use vstd::slice::slice_subrange;
use vstd::string::StringSliceAdditionalSpecFns;
use vstd::string::StringExecFns;
use crate::screen::ScreenGeometry;
use crate::device::DeviceCapability;
use crate::device::DeviceId;
use crate::machine::MachineId;
use crate::message::ClipboardContentV;
use crate::message::ClipboardFormat;
use crate::message::ClipboardMessageV;
use crate::message::ControlMessageV;
use crate::message::DeviceInfoV;
use crate::message::InputMessageV;
use crate::message::MessageV;
use crate::message::ProtocolVersion;
use vstd::utf8::decode_utf8;
use vstd::utf8::encode_utf8;
use vstd::utf8::valid_utf8;

verus! {

/// Maximum message size (1 MiB). Prevents allocation bombs.
pub const MAX_MESSAGE_SIZE: u32 = 1048576;

/// The little-endian bytes of `n`, `k` bytes long.
pub open spec fn spec_le_bytes(n: int, k: nat) -> Seq<u8>
    decreases k,
{
    if k == 0 {
        Seq::empty()
    } else {
        seq![(n % 256) as u8] + spec_le_bytes(n / 256, (k - 1) as nat)
    }
}

/// The value of a little-endian byte string.
pub open spec fn spec_from_le(b: Seq<u8>) -> int
    decreases b.len(),
{
    if b.len() == 0 {
        0
    } else {
        b[0] + 256 * spec_from_le(b.drop_first())
    }
}

/// Reading back `k` little-endian bytes yields the value they encode.
pub proof fn lemma_le_round_trip(n: int, k: nat)
    requires
        0 <= n < pow256(k),
    ensures
        spec_le_bytes(n, k).len() == k,
        spec_from_le(spec_le_bytes(n, k)) == n,
    decreases k,
{
    if k > 0 {
        lemma_le_round_trip(n / 256, (k - 1) as nat);
        assert(spec_le_bytes(n, k).drop_first() =~= spec_le_bytes(n / 256, (k - 1) as nat));
    }
}

/// 256 to the power `k`.
pub open spec fn pow256(k: nat) -> int
    decreases k,
{
    if k == 0 {
        1
    } else {
        256 * pow256((k - 1) as nat)
    }
}

/// The variable-length encoding of an unsigned 64-bit value.
pub open spec fn spec_enc_varint(n: u64) -> Seq<u8> {
    if n < 251 {
        seq![n as u8]
    } else if n <= 0xFFFF {
        seq![251u8] + spec_le_bytes(n as int, 2)
    } else if n <= 0xFFFF_FFFF {
        seq![252u8] + spec_le_bytes(n as int, 4)
    } else {
        seq![253u8] + spec_le_bytes(n as int, 8)
    }
}

/// Decode a variable-length unsigned value at position `i`; yields the
/// value and the position after it.
pub open spec fn spec_dec_varint(b: Seq<u8>, i: int) -> Option<(u64, int)> {
    if i < 0 || i >= b.len() {
        None
    } else {
        let m = b[i];
        if m < 251 {
            Some((m as u64, i + 1))
        } else if m == 251 {
            if i + 3 <= b.len() {
                Some((spec_from_le(b.subrange(i + 1, i + 3)) as u64, i + 3))
            } else {
                None
            }
        } else if m == 252 {
            if i + 5 <= b.len() {
                Some((spec_from_le(b.subrange(i + 1, i + 5)) as u64, i + 5))
            } else {
                None
            }
        } else if m == 253 {
            if i + 9 <= b.len() {
                Some((spec_from_le(b.subrange(i + 1, i + 9)) as u64, i + 9))
            } else {
                None
            }
        } else {
            None
        }
    }
}

/// A little-endian byte string's value is bounded by its length's range.
pub proof fn lemma_from_le_bound(b: Seq<u8>)
    ensures
        0 <= spec_from_le(b) < pow256(b.len()),
    decreases b.len(),
{
    if b.len() > 0 {
        lemma_from_le_bound(b.drop_first());
    }
}

/// Decoding inverts encoding for variable-length unsigned values: wherever
/// the encoding of `n` sits in a buffer, decoding there yields `n` and
/// stops right after it.
pub proof fn lemma_varint_round_trip(b: Seq<u8>, i: int, n: u64)
    requires
        0 <= i,
        i + spec_enc_varint(n).len() <= b.len(),
        b.subrange(i, i + spec_enc_varint(n).len() as int) == spec_enc_varint(n),
    ensures
        spec_dec_varint(b, i) == Some((n, i + spec_enc_varint(n).len())),
{
    let e = spec_enc_varint(n);
    assert(pow256(0) == 1);
    assert(pow256(1) == 256);
    assert(pow256(2) == 256 * pow256(1));
    assert(pow256(3) == 256 * pow256(2));
    assert(pow256(4) == 256 * pow256(3));
    assert(pow256(5) == 256 * pow256(4));
    assert(pow256(6) == 256 * pow256(5));
    assert(pow256(7) == 256 * pow256(6));
    assert(pow256(8) == 256 * pow256(7));
    if n < 251 {
        assert(b.subrange(i, i + 1)[0] == e[0]);
    } else if n <= 0xFFFF {
        lemma_le_round_trip(n as int, 2);
        assert(e.len() == 3);
        assert(b.subrange(i, i + 3) == e);
        assert(b[i] == b.subrange(i, i + 3)[0]);
        assert(b.subrange(i + 1, i + 3) =~= spec_le_bytes(n as int, 2)) by {
            assert forall|t: int| 0 <= t < 2 implies b.subrange(i + 1, i + 3)[t] == spec_le_bytes(
                n as int,
                2,
            )[t] by {
                assert(b.subrange(i + 1, i + 3)[t] == b.subrange(i, i + 3)[t + 1]);
                assert(e[t + 1] == spec_le_bytes(n as int, 2)[t]);
            }
        }
    } else if n <= 0xFFFF_FFFF {
        lemma_le_round_trip(n as int, 4);
        assert(e.len() == 5);
        assert(b.subrange(i, i + 5) == e);
        assert(b[i] == b.subrange(i, i + 5)[0]);
        assert(b.subrange(i + 1, i + 5) =~= spec_le_bytes(n as int, 4)) by {
            assert forall|t: int| 0 <= t < 4 implies b.subrange(i + 1, i + 5)[t] == spec_le_bytes(
                n as int,
                4,
            )[t] by {
                assert(b.subrange(i + 1, i + 5)[t] == b.subrange(i, i + 5)[t + 1]);
                assert(e[t + 1] == spec_le_bytes(n as int, 4)[t]);
            }
        }
    } else {
        assert((n as int) < pow256(8));
        lemma_le_round_trip(n as int, 8);
        assert(e.len() == 9);
        assert(b.subrange(i, i + 9) == e);
        assert(b[i] == b.subrange(i, i + 9)[0]);
        assert(b.subrange(i + 1, i + 9) =~= spec_le_bytes(n as int, 8)) by {
            assert forall|t: int| 0 <= t < 8 implies b.subrange(i + 1, i + 9)[t] == spec_le_bytes(
                n as int,
                8,
            )[t] by {
                assert(b.subrange(i + 1, i + 9)[t] == b.subrange(i, i + 9)[t + 1]);
                assert(e[t + 1] == spec_le_bytes(n as int, 8)[t]);
            }
        }
    }
}

/// The zigzag folding of a signed 32-bit value into an unsigned one:
/// non-negative values map to even numbers, negative ones to odd.
pub open spec fn spec_zigzag(v: int) -> int {
    if v >= 0 {
        2 * v
    } else {
        -2 * v - 1
    }
}

/// The inverse zigzag folding.
pub open spec fn spec_unzigzag(u: int) -> int {
    if u % 2 == 0 {
        u / 2
    } else {
        -((u + 1) / 2)
    }
}

/// Unfolding inverts folding.
pub proof fn lemma_zigzag_round_trip(v: int)
    ensures
        spec_unzigzag(spec_zigzag(v)) == v,
        v >= i32::MIN ==> spec_zigzag(v) >= 0,
        i32::MIN <= v <= i32::MAX ==> spec_zigzag(v) <= 0xFFFF_FFFF,
{
}

/// Append the variable-length encoding of `n`.
pub fn enc_varint(buf: &mut Vec<u8>, n: u64)
    ensures
        final(buf)@ == old(buf)@ + spec_enc_varint(n),
{
    if n < 251 {
        buf.push(n as u8);
        proof {
            assert(buf@ =~= old(buf)@ + spec_enc_varint(n));
        }
    } else if n <= 0xFFFF {
        buf.push(251u8);
        buf.push((n % 256) as u8);
        buf.push(((n / 256) % 256) as u8);
        proof {
            let m1 = n as int / 256;
            assert(spec_le_bytes(m1 / 256, 0) =~= Seq::<u8>::empty());
            assert(spec_le_bytes(m1, 1) =~= seq![(m1 % 256) as u8]);
            assert(spec_le_bytes(n as int, 2) =~= seq![(n % 256) as u8] + spec_le_bytes(m1, 1));
            assert(buf@ =~= old(buf)@ + spec_enc_varint(n));
        }
    } else if n <= 0xFFFF_FFFF {
        buf.push(252u8);
        let mut v = n;
        buf.push((v % 256) as u8);
        v = v / 256;
        buf.push((v % 256) as u8);
        v = v / 256;
        buf.push((v % 256) as u8);
        v = v / 256;
        buf.push((v % 256) as u8);
        proof {
            let m1 = n as int / 256;
            let m2 = m1 / 256;
            let m3 = m2 / 256;
            assert(spec_le_bytes(m3 / 256, 0) =~= Seq::<u8>::empty());
            assert(spec_le_bytes(m3, 1) =~= seq![(m3 % 256) as u8]);
            assert(spec_le_bytes(m2, 2) =~= seq![(m2 % 256) as u8] + spec_le_bytes(m3, 1));
            assert(spec_le_bytes(m1, 3) =~= seq![(m1 % 256) as u8] + spec_le_bytes(m2, 2));
            assert(spec_le_bytes(n as int, 4) =~= seq![(n % 256) as u8] + spec_le_bytes(m1, 3));
            assert(buf@ =~= old(buf)@ + spec_enc_varint(n));
        }
    } else {
        buf.push(253u8);
        let mut v = n;
        let ghost gstart = buf@;
        let mut k: usize = 0;
        while k < 8
            invariant
                k <= 8,
                v as int == spec_le_val(n as int, k as nat),
                buf@ == gstart + spec_le_partial(n as int, k as nat),
            decreases 8 - k,
        {
            buf.push((v % 256) as u8);
            proof {
                assert(spec_le_partial(n as int, (k + 1) as nat) =~= spec_le_partial(
                    n as int,
                    k as nat,
                ).push((spec_le_val(n as int, k as nat) % 256) as u8));
                assert(buf@ =~= gstart + spec_le_partial(n as int, (k + 1) as nat));
            }
            v = v / 256;
            k = k + 1;
        }
        proof {
            lemma_le_partial_full(n as int);
            assert(buf@ =~= old(buf)@ + spec_enc_varint(n));
        }
    }
}

/// The first `k` little-endian bytes of `n`.
pub open spec fn spec_le_partial(n: int, k: nat) -> Seq<u8>
    decreases k,
{
    if k == 0 {
        Seq::empty()
    } else {
        spec_le_partial(n, (k - 1) as nat).push((spec_le_val(n, (k - 1) as nat) % 256) as u8)
    }
}

/// `n` shifted right by `k` bytes.
pub open spec fn spec_le_val(n: int, k: nat) -> int
    decreases k,
{
    if k == 0 {
        n
    } else {
        spec_le_val(n, (k - 1) as nat) / 256
    }
}

/// Eight partial little-endian bytes are the eight-byte encoding.
proof fn lemma_le_partial_is_le_bytes(n: int, k: nat)
    requires
        n >= 0,
    ensures
        spec_le_partial(n, k) =~= spec_le_bytes(n, k),
    decreases k,
{
    if k > 0 {
        lemma_le_partial_is_le_bytes(n, (k - 1) as nat);
        lemma_le_shift(n, (k - 1) as nat);
        assert(spec_le_bytes(n, k) =~= spec_le_bytes(n, (k - 1) as nat).push(
            (spec_le_val(n, (k - 1) as nat) % 256) as u8,
        )) by {
            lemma_le_bytes_push(n, k);
        }
    }
}

/// Byte `k` of the little-endian encoding is the value shifted by `k` bytes.
proof fn lemma_le_shift(n: int, k: nat)
    requires
        n >= 0,
    ensures
        spec_le_val(n, k) == n / pow256(k),
    decreases k,
{
    if k > 0 {
        lemma_le_shift(n, (k - 1) as nat);
        assert(n / pow256((k - 1) as nat) / 256 == n / (pow256((k - 1) as nat) * 256)) by {
            lemma_pow256_pos((k - 1) as nat);
            vstd::arithmetic::div_mod::lemma_div_denominator(n, pow256((k - 1) as nat), 256);
        }
        assert(pow256(k) == pow256((k - 1) as nat) * 256);
    }
}

/// `pow256` is positive.
proof fn lemma_pow256_pos(k: nat)
    ensures
        pow256(k) >= 1,
    decreases k,
{
    if k > 0 {
        lemma_pow256_pos((k - 1) as nat);
    }
}

/// Extending the little-endian encoding by one byte appends the next shifted
/// byte.
proof fn lemma_le_bytes_push(n: int, k: nat)
    requires
        n >= 0,
        k > 0,
    ensures
        spec_le_bytes(n, k) =~= spec_le_bytes(n, (k - 1) as nat).push(
            (spec_le_val(n, (k - 1) as nat) % 256) as u8,
        ),
    decreases k,
{
    lemma_le_shift(n, (k - 1) as nat);
    if k > 1 {
        lemma_le_bytes_push(n / 256, (k - 1) as nat);
        assert(spec_le_val(n / 256, (k - 2) as nat) == spec_le_val(n, (k - 1) as nat)) by {
            lemma_le_shift(n / 256, (k - 2) as nat);
            lemma_le_shift(n, (k - 1) as nat);
            lemma_pow256_pos((k - 2) as nat);
            vstd::arithmetic::div_mod::lemma_div_denominator(n, 256, pow256((k - 2) as nat));
            assert(256 * pow256((k - 2) as nat) == pow256((k - 1) as nat));
        }
        assert(spec_le_bytes(n, k) =~= seq![(n % 256) as u8] + spec_le_bytes(
            n / 256,
            (k - 1) as nat,
        ));
        assert(spec_le_bytes(n, (k - 1) as nat) =~= seq![(n % 256) as u8] + spec_le_bytes(
            n / 256,
            (k - 2) as nat,
        ));
    } else {
        assert(spec_le_bytes(n / 256, 0) =~= Seq::<u8>::empty());
        assert(spec_le_bytes(n, 1) =~= seq![(n % 256) as u8]);
        assert(spec_le_bytes(n, 0) =~= Seq::<u8>::empty());
    }
}

/// The eight partial bytes equal the eight-byte little-endian form.
proof fn lemma_le_partial_full(n: int)
    requires
        n >= 0,
    ensures
        spec_le_partial(n, 8) =~= spec_le_bytes(n, 8),
{
    lemma_le_partial_is_le_bytes(n, 8);
}

/// Wherever `e1 + e2` sits in a buffer, each part sits at its place.
pub proof fn lemma_concat_prefix(b: Seq<u8>, i: int, e1: Seq<u8>, e2: Seq<u8>)
    requires
        0 <= i,
        i + e1.len() + e2.len() <= b.len(),
        b.subrange(i, i + e1.len() + e2.len()) == e1 + e2,
    ensures
        b.subrange(i, i + e1.len() as int) == e1,
        b.subrange(i + e1.len(), i + e1.len() + e2.len()) == e2,
{
    let whole = b.subrange(i, i + e1.len() + e2.len());
    assert(b.subrange(i, i + e1.len() as int) =~= e1) by {
        assert forall|t: int| 0 <= t < e1.len() implies b.subrange(i, i + e1.len() as int)[t]
            == e1[t] by {
            assert(whole[t] == (e1 + e2)[t]);
        }
    }
    assert(b.subrange(i + e1.len(), i + e1.len() + e2.len()) =~= e2) by {
        assert forall|t: int| 0 <= t < e2.len() implies b.subrange(
            i + e1.len(),
            i + e1.len() + e2.len(),
        )[t] == e2[t] by {
            assert(whole[e1.len() + t] == (e1 + e2)[e1.len() + t]);
        }
    }
}

/// The ordinal of a screen edge.
pub open spec fn spec_edge_ord(e: ScreenEdge) -> u64 {
    match e {
        ScreenEdge::Left => 0,
        ScreenEdge::Right => 1,
        ScreenEdge::Top => 2,
        ScreenEdge::Bottom => 3,
    }
}

/// The screen edge with this ordinal.
pub open spec fn spec_edge_from_ord(n: u64) -> Option<ScreenEdge> {
    if n == 0 {
        Some(ScreenEdge::Left)
    } else if n == 1 {
        Some(ScreenEdge::Right)
    } else if n == 2 {
        Some(ScreenEdge::Top)
    } else if n == 3 {
        Some(ScreenEdge::Bottom)
    } else {
        None
    }
}

/// The encoding of a screen edge.
pub open spec fn spec_enc_edge(e: ScreenEdge) -> Seq<u8> {
    spec_enc_varint(spec_edge_ord(e))
}

/// Decode a screen edge.
pub open spec fn spec_dec_edge(b: Seq<u8>, i: int) -> Option<(ScreenEdge, int)> {
    match spec_dec_varint(b, i) {
        Some((n, j)) => match spec_edge_from_ord(n) {
            Some(e) => Some((e, j)),
            None => None,
        },
        None => None,
    }
}

/// Decoding inverts encoding for screen edges.
pub proof fn lemma_edge_round_trip(b: Seq<u8>, i: int, e: ScreenEdge)
    requires
        0 <= i,
        i + spec_enc_edge(e).len() <= b.len(),
        b.subrange(i, i + spec_enc_edge(e).len() as int) == spec_enc_edge(e),
    ensures
        spec_dec_edge(b, i) == Some((e, i + spec_enc_edge(e).len())),
{
    lemma_varint_round_trip(b, i, spec_edge_ord(e));
}

/// The ordinal of a button state.
pub open spec fn spec_button_state_ord(s: ButtonState) -> u64 {
    match s {
        ButtonState::Pressed => 0,
        ButtonState::Released => 1,
    }
}

/// The button state with this ordinal.
pub open spec fn spec_button_state_from_ord(n: u64) -> Option<ButtonState> {
    if n == 0 {
        Some(ButtonState::Pressed)
    } else if n == 1 {
        Some(ButtonState::Released)
    } else {
        None
    }
}

/// The ordinal of a scroll axis.
pub open spec fn spec_axis_ord(a: ScrollAxis) -> u64 {
    match a {
        ScrollAxis::Vertical => 0,
        ScrollAxis::Horizontal => 1,
    }
}

/// The scroll axis with this ordinal.
pub open spec fn spec_axis_from_ord(n: u64) -> Option<ScrollAxis> {
    if n == 0 {
        Some(ScrollAxis::Vertical)
    } else if n == 1 {
        Some(ScrollAxis::Horizontal)
    } else {
        None
    }
}

/// The ordinal of a scroll direction.
pub open spec fn spec_dir_ord(d: ScrollDirection) -> u64 {
    match d {
        ScrollDirection::Positive => 0,
        ScrollDirection::Negative => 1,
    }
}

/// The scroll direction with this ordinal.
pub open spec fn spec_dir_from_ord(n: u64) -> Option<ScrollDirection> {
    if n == 0 {
        Some(ScrollDirection::Positive)
    } else if n == 1 {
        Some(ScrollDirection::Negative)
    } else {
        None
    }
}

/// The encoding of a mouse button: ordinal, and a payload for the extra
/// buttons.
pub open spec fn spec_enc_mouse_button(m: MouseButton) -> Seq<u8> {
    match m {
        MouseButton::Left => spec_enc_varint(0),
        MouseButton::Right => spec_enc_varint(1),
        MouseButton::Middle => spec_enc_varint(2),
        MouseButton::Back => spec_enc_varint(3),
        MouseButton::Forward => spec_enc_varint(4),
        MouseButton::Other(code) => spec_enc_varint(5) + spec_enc_varint(code as u64),
    }
}

/// Decode a mouse button.
pub open spec fn spec_dec_mouse_button(b: Seq<u8>, i: int) -> Option<(MouseButton, int)> {
    match spec_dec_varint(b, i) {
        Some((n, j)) => if n == 0 {
            Some((MouseButton::Left, j))
        } else if n == 1 {
            Some((MouseButton::Right, j))
        } else if n == 2 {
            Some((MouseButton::Middle, j))
        } else if n == 3 {
            Some((MouseButton::Back, j))
        } else if n == 4 {
            Some((MouseButton::Forward, j))
        } else if n == 5 {
            match spec_dec_varint(b, j) {
                Some((c, j2)) => if c <= 0xFFFF {
                    Some((MouseButton::Other(c as u16), j2))
                } else {
                    None
                },
                None => None,
            }
        } else {
            None
        },
        None => None,
    }
}

/// Decoding inverts encoding for mouse buttons.
pub proof fn lemma_mouse_button_round_trip(b: Seq<u8>, i: int, m: MouseButton)
    requires
        0 <= i,
        i + spec_enc_mouse_button(m).len() <= b.len(),
        b.subrange(i, i + spec_enc_mouse_button(m).len() as int) == spec_enc_mouse_button(m),
    ensures
        spec_dec_mouse_button(b, i) == Some((m, i + spec_enc_mouse_button(m).len())),
{
    match m {
        MouseButton::Left => lemma_varint_round_trip(b, i, 0),
        MouseButton::Right => lemma_varint_round_trip(b, i, 1),
        MouseButton::Middle => lemma_varint_round_trip(b, i, 2),
        MouseButton::Back => lemma_varint_round_trip(b, i, 3),
        MouseButton::Forward => lemma_varint_round_trip(b, i, 4),
        MouseButton::Other(code) => {
            lemma_concat_prefix(b, i, spec_enc_varint(5), spec_enc_varint(code as u64));
            lemma_varint_round_trip(b, i, 5);
            lemma_varint_round_trip(b, i + spec_enc_varint(5).len(), code as u64);
        },
    }
}

/// The ordinal of a key code; the raw fallback has ordinal 106 and carries
/// its scancode as a payload.
pub open spec fn spec_keycode_ord(k: KeyCode) -> u64 {
    match k {
        KeyCode::KeyA => 0,
        KeyCode::KeyB => 1,
        KeyCode::KeyC => 2,
        KeyCode::KeyD => 3,
        KeyCode::KeyE => 4,
        KeyCode::KeyF => 5,
        KeyCode::KeyG => 6,
        KeyCode::KeyH => 7,
        KeyCode::KeyI => 8,
        KeyCode::KeyJ => 9,
        KeyCode::KeyK => 10,
        KeyCode::KeyL => 11,
        KeyCode::KeyM => 12,
        KeyCode::KeyN => 13,
        KeyCode::KeyO => 14,
        KeyCode::KeyP => 15,
        KeyCode::KeyQ => 16,
        KeyCode::KeyR => 17,
        KeyCode::KeyS => 18,
        KeyCode::KeyT => 19,
        KeyCode::KeyU => 20,
        KeyCode::KeyV => 21,
        KeyCode::KeyW => 22,
        KeyCode::KeyX => 23,
        KeyCode::KeyY => 24,
        KeyCode::KeyZ => 25,
        KeyCode::Digit0 => 26,
        KeyCode::Digit1 => 27,
        KeyCode::Digit2 => 28,
        KeyCode::Digit3 => 29,
        KeyCode::Digit4 => 30,
        KeyCode::Digit5 => 31,
        KeyCode::Digit6 => 32,
        KeyCode::Digit7 => 33,
        KeyCode::Digit8 => 34,
        KeyCode::Digit9 => 35,
        KeyCode::F1 => 36,
        KeyCode::F2 => 37,
        KeyCode::F3 => 38,
        KeyCode::F4 => 39,
        KeyCode::F5 => 40,
        KeyCode::F6 => 41,
        KeyCode::F7 => 42,
        KeyCode::F8 => 43,
        KeyCode::F9 => 44,
        KeyCode::F10 => 45,
        KeyCode::F11 => 46,
        KeyCode::F12 => 47,
        KeyCode::LeftShift => 48,
        KeyCode::RightShift => 49,
        KeyCode::LeftCtrl => 50,
        KeyCode::RightCtrl => 51,
        KeyCode::LeftAlt => 52,
        KeyCode::RightAlt => 53,
        KeyCode::LeftMeta => 54,
        KeyCode::RightMeta => 55,
        KeyCode::Enter => 56,
        KeyCode::Escape => 57,
        KeyCode::Backspace => 58,
        KeyCode::Tab => 59,
        KeyCode::Space => 60,
        KeyCode::CapsLock => 61,
        KeyCode::PrintScreen => 62,
        KeyCode::ScrollLock => 63,
        KeyCode::Pause => 64,
        KeyCode::Insert => 65,
        KeyCode::Delete => 66,
        KeyCode::Home => 67,
        KeyCode::End => 68,
        KeyCode::PageUp => 69,
        KeyCode::PageDown => 70,
        KeyCode::ArrowUp => 71,
        KeyCode::ArrowDown => 72,
        KeyCode::ArrowLeft => 73,
        KeyCode::ArrowRight => 74,
        KeyCode::Minus => 75,
        KeyCode::Equal => 76,
        KeyCode::BracketLeft => 77,
        KeyCode::BracketRight => 78,
        KeyCode::Backslash => 79,
        KeyCode::Semicolon => 80,
        KeyCode::Quote => 81,
        KeyCode::Backquote => 82,
        KeyCode::Comma => 83,
        KeyCode::Period => 84,
        KeyCode::Slash => 85,
        KeyCode::NumLock => 86,
        KeyCode::NumpadDivide => 87,
        KeyCode::NumpadMultiply => 88,
        KeyCode::NumpadSubtract => 89,
        KeyCode::NumpadAdd => 90,
        KeyCode::NumpadEnter => 91,
        KeyCode::Numpad0 => 92,
        KeyCode::Numpad1 => 93,
        KeyCode::Numpad2 => 94,
        KeyCode::Numpad3 => 95,
        KeyCode::Numpad4 => 96,
        KeyCode::Numpad5 => 97,
        KeyCode::Numpad6 => 98,
        KeyCode::Numpad7 => 99,
        KeyCode::Numpad8 => 100,
        KeyCode::Numpad9 => 101,
        KeyCode::NumpadDecimal => 102,
        KeyCode::Mute => 103,
        KeyCode::VolumeUp => 104,
        KeyCode::VolumeDown => 105,
        KeyCode::Unknown(_) => 106,
    }
}

/// The key code with this ordinal, for the closed enumeration.
pub open spec fn spec_keycode_from_ord(n: u64) -> Option<KeyCode> {
    if false {
        None
    } else if n == 0 {
        Some(KeyCode::KeyA)
    } else if n == 1 {
        Some(KeyCode::KeyB)
    } else if n == 2 {
        Some(KeyCode::KeyC)
    } else if n == 3 {
        Some(KeyCode::KeyD)
    } else if n == 4 {
        Some(KeyCode::KeyE)
    } else if n == 5 {
        Some(KeyCode::KeyF)
    } else if n == 6 {
        Some(KeyCode::KeyG)
    } else if n == 7 {
        Some(KeyCode::KeyH)
    } else if n == 8 {
        Some(KeyCode::KeyI)
    } else if n == 9 {
        Some(KeyCode::KeyJ)
    } else if n == 10 {
        Some(KeyCode::KeyK)
    } else if n == 11 {
        Some(KeyCode::KeyL)
    } else if n == 12 {
        Some(KeyCode::KeyM)
    } else if n == 13 {
        Some(KeyCode::KeyN)
    } else if n == 14 {
        Some(KeyCode::KeyO)
    } else if n == 15 {
        Some(KeyCode::KeyP)
    } else if n == 16 {
        Some(KeyCode::KeyQ)
    } else if n == 17 {
        Some(KeyCode::KeyR)
    } else if n == 18 {
        Some(KeyCode::KeyS)
    } else if n == 19 {
        Some(KeyCode::KeyT)
    } else if n == 20 {
        Some(KeyCode::KeyU)
    } else if n == 21 {
        Some(KeyCode::KeyV)
    } else if n == 22 {
        Some(KeyCode::KeyW)
    } else if n == 23 {
        Some(KeyCode::KeyX)
    } else if n == 24 {
        Some(KeyCode::KeyY)
    } else if n == 25 {
        Some(KeyCode::KeyZ)
    } else if n == 26 {
        Some(KeyCode::Digit0)
    } else if n == 27 {
        Some(KeyCode::Digit1)
    } else if n == 28 {
        Some(KeyCode::Digit2)
    } else if n == 29 {
        Some(KeyCode::Digit3)
    } else if n == 30 {
        Some(KeyCode::Digit4)
    } else if n == 31 {
        Some(KeyCode::Digit5)
    } else if n == 32 {
        Some(KeyCode::Digit6)
    } else if n == 33 {
        Some(KeyCode::Digit7)
    } else if n == 34 {
        Some(KeyCode::Digit8)
    } else if n == 35 {
        Some(KeyCode::Digit9)
    } else if n == 36 {
        Some(KeyCode::F1)
    } else if n == 37 {
        Some(KeyCode::F2)
    } else if n == 38 {
        Some(KeyCode::F3)
    } else if n == 39 {
        Some(KeyCode::F4)
    } else if n == 40 {
        Some(KeyCode::F5)
    } else if n == 41 {
        Some(KeyCode::F6)
    } else if n == 42 {
        Some(KeyCode::F7)
    } else if n == 43 {
        Some(KeyCode::F8)
    } else if n == 44 {
        Some(KeyCode::F9)
    } else if n == 45 {
        Some(KeyCode::F10)
    } else if n == 46 {
        Some(KeyCode::F11)
    } else if n == 47 {
        Some(KeyCode::F12)
    } else if n == 48 {
        Some(KeyCode::LeftShift)
    } else if n == 49 {
        Some(KeyCode::RightShift)
    } else if n == 50 {
        Some(KeyCode::LeftCtrl)
    } else if n == 51 {
        Some(KeyCode::RightCtrl)
    } else if n == 52 {
        Some(KeyCode::LeftAlt)
    } else if n == 53 {
        Some(KeyCode::RightAlt)
    } else if n == 54 {
        Some(KeyCode::LeftMeta)
    } else if n == 55 {
        Some(KeyCode::RightMeta)
    } else if n == 56 {
        Some(KeyCode::Enter)
    } else if n == 57 {
        Some(KeyCode::Escape)
    } else if n == 58 {
        Some(KeyCode::Backspace)
    } else if n == 59 {
        Some(KeyCode::Tab)
    } else if n == 60 {
        Some(KeyCode::Space)
    } else if n == 61 {
        Some(KeyCode::CapsLock)
    } else if n == 62 {
        Some(KeyCode::PrintScreen)
    } else if n == 63 {
        Some(KeyCode::ScrollLock)
    } else if n == 64 {
        Some(KeyCode::Pause)
    } else if n == 65 {
        Some(KeyCode::Insert)
    } else if n == 66 {
        Some(KeyCode::Delete)
    } else if n == 67 {
        Some(KeyCode::Home)
    } else if n == 68 {
        Some(KeyCode::End)
    } else if n == 69 {
        Some(KeyCode::PageUp)
    } else if n == 70 {
        Some(KeyCode::PageDown)
    } else if n == 71 {
        Some(KeyCode::ArrowUp)
    } else if n == 72 {
        Some(KeyCode::ArrowDown)
    } else if n == 73 {
        Some(KeyCode::ArrowLeft)
    } else if n == 74 {
        Some(KeyCode::ArrowRight)
    } else if n == 75 {
        Some(KeyCode::Minus)
    } else if n == 76 {
        Some(KeyCode::Equal)
    } else if n == 77 {
        Some(KeyCode::BracketLeft)
    } else if n == 78 {
        Some(KeyCode::BracketRight)
    } else if n == 79 {
        Some(KeyCode::Backslash)
    } else if n == 80 {
        Some(KeyCode::Semicolon)
    } else if n == 81 {
        Some(KeyCode::Quote)
    } else if n == 82 {
        Some(KeyCode::Backquote)
    } else if n == 83 {
        Some(KeyCode::Comma)
    } else if n == 84 {
        Some(KeyCode::Period)
    } else if n == 85 {
        Some(KeyCode::Slash)
    } else if n == 86 {
        Some(KeyCode::NumLock)
    } else if n == 87 {
        Some(KeyCode::NumpadDivide)
    } else if n == 88 {
        Some(KeyCode::NumpadMultiply)
    } else if n == 89 {
        Some(KeyCode::NumpadSubtract)
    } else if n == 90 {
        Some(KeyCode::NumpadAdd)
    } else if n == 91 {
        Some(KeyCode::NumpadEnter)
    } else if n == 92 {
        Some(KeyCode::Numpad0)
    } else if n == 93 {
        Some(KeyCode::Numpad1)
    } else if n == 94 {
        Some(KeyCode::Numpad2)
    } else if n == 95 {
        Some(KeyCode::Numpad3)
    } else if n == 96 {
        Some(KeyCode::Numpad4)
    } else if n == 97 {
        Some(KeyCode::Numpad5)
    } else if n == 98 {
        Some(KeyCode::Numpad6)
    } else if n == 99 {
        Some(KeyCode::Numpad7)
    } else if n == 100 {
        Some(KeyCode::Numpad8)
    } else if n == 101 {
        Some(KeyCode::Numpad9)
    } else if n == 102 {
        Some(KeyCode::NumpadDecimal)
    } else if n == 103 {
        Some(KeyCode::Mute)
    } else if n == 104 {
        Some(KeyCode::VolumeUp)
    } else if n == 105 {
        Some(KeyCode::VolumeDown)
    } else {
        None
    }
}

/// Looking an ordinal up inverts taking it, on the closed enumeration.
pub proof fn lemma_keycode_ord_round_trip(k: KeyCode)
    requires
        !(k is Unknown),
    ensures
        spec_keycode_from_ord(spec_keycode_ord(k)) == Some(k),
{
}

/// The encoding of a key code.
pub open spec fn spec_enc_keycode(k: KeyCode) -> Seq<u8> {
    match k {
        KeyCode::Unknown(raw) => spec_enc_varint(106) + spec_enc_varint(raw as u64),
        _ => spec_enc_varint(spec_keycode_ord(k)),
    }
}

/// Decode a key code.
pub open spec fn spec_dec_keycode(b: Seq<u8>, i: int) -> Option<(KeyCode, int)> {
    match spec_dec_varint(b, i) {
        Some((n, j)) => if n == 106 {
            match spec_dec_varint(b, j) {
                Some((raw, j2)) => if raw <= 0xFFFF_FFFF {
                    Some((KeyCode::Unknown(raw as u32), j2))
                } else {
                    None
                },
                None => None,
            }
        } else {
            match spec_keycode_from_ord(n) {
                Some(k) => Some((k, j)),
                None => None,
            }
        },
        None => None,
    }
}

/// Decoding inverts encoding for key codes.
pub proof fn lemma_keycode_round_trip(b: Seq<u8>, i: int, k: KeyCode)
    requires
        0 <= i,
        i + spec_enc_keycode(k).len() <= b.len(),
        b.subrange(i, i + spec_enc_keycode(k).len() as int) == spec_enc_keycode(k),
    ensures
        spec_dec_keycode(b, i) == Some((k, i + spec_enc_keycode(k).len())),
{
    match k {
        KeyCode::Unknown(raw) => {
            lemma_concat_prefix(b, i, spec_enc_varint(106), spec_enc_varint(raw as u64));
            lemma_varint_round_trip(b, i, 106);
            lemma_varint_round_trip(b, i + spec_enc_varint(106).len(), raw as u64);
        },
        _ => {
            lemma_varint_round_trip(b, i, spec_keycode_ord(k));
            lemma_keycode_ord_round_trip(k);
            assert(spec_keycode_ord(k) != 106);
        },
    }
}

/// Values of `pow256` needed for the fixed-width forms.
pub proof fn lemma_pow256_wide()
    ensures
        pow256(8) > u64::MAX,
        pow256(16) > u128::MAX,
        pow256(8) == 0x10000000000000000,
        pow256(16) == 0x100000000000000000000000000000000,
{
    assert(pow256(0) == 1);
    assert(pow256(1) == 256);
    assert(pow256(2) == 256 * pow256(1));
    assert(pow256(3) == 256 * pow256(2));
    assert(pow256(4) == 256 * pow256(3));
    assert(pow256(5) == 256 * pow256(4));
    assert(pow256(6) == 256 * pow256(5));
    assert(pow256(7) == 256 * pow256(6));
    assert(pow256(8) == 256 * pow256(7));
    assert(pow256(9) == 256 * pow256(8));
    assert(pow256(10) == 256 * pow256(9));
    assert(pow256(11) == 256 * pow256(10));
    assert(pow256(12) == 256 * pow256(11));
    assert(pow256(13) == 256 * pow256(12));
    assert(pow256(14) == 256 * pow256(13));
    assert(pow256(15) == 256 * pow256(14));
    assert(pow256(16) == 256 * pow256(15));
}

/// The encoding of an unsigned 32-bit value.
pub open spec fn spec_enc_u32(v: u32) -> Seq<u8> {
    spec_enc_varint(v as u64)
}

/// Decode an unsigned 32-bit value.
pub open spec fn spec_dec_u32(b: Seq<u8>, i: int) -> Option<(u32, int)> {
    match spec_dec_varint(b, i) {
        Some((n, j)) => if n <= 0xFFFF_FFFF {
            Some((n as u32, j))
        } else {
            None
        },
        None => None,
    }
}

/// Decoding inverts encoding for unsigned 32-bit values.
pub proof fn lemma_u32_round_trip(b: Seq<u8>, i: int, v: u32)
    requires
        0 <= i,
        i + spec_enc_u32(v).len() <= b.len(),
        b.subrange(i, i + spec_enc_u32(v).len() as int) == spec_enc_u32(v),
    ensures
        spec_dec_u32(b, i) == Some((v, i + spec_enc_u32(v).len())),
{
    lemma_varint_round_trip(b, i, v as u64);
}

/// The encoding of an unsigned 16-bit value.
pub open spec fn spec_enc_u16(v: u16) -> Seq<u8> {
    spec_enc_varint(v as u64)
}

/// Decode an unsigned 16-bit value.
pub open spec fn spec_dec_u16(b: Seq<u8>, i: int) -> Option<(u16, int)> {
    match spec_dec_varint(b, i) {
        Some((n, j)) => if n <= 0xFFFF {
            Some((n as u16, j))
        } else {
            None
        },
        None => None,
    }
}

/// Decoding inverts encoding for unsigned 16-bit values.
pub proof fn lemma_u16_round_trip(b: Seq<u8>, i: int, v: u16)
    requires
        0 <= i,
        i + spec_enc_u16(v).len() <= b.len(),
        b.subrange(i, i + spec_enc_u16(v).len() as int) == spec_enc_u16(v),
    ensures
        spec_dec_u16(b, i) == Some((v, i + spec_enc_u16(v).len())),
{
    lemma_varint_round_trip(b, i, v as u64);
}

/// The encoding of a signed 32-bit value: zigzag-folded, then variable
/// length.
pub open spec fn spec_enc_i32(v: i32) -> Seq<u8> {
    spec_enc_varint(spec_zigzag(v as int) as u64)
}

/// Decode a signed 32-bit value.
pub open spec fn spec_dec_i32(b: Seq<u8>, i: int) -> Option<(i32, int)> {
    match spec_dec_varint(b, i) {
        Some((n, j)) => if n <= 0xFFFF_FFFF {
            Some((spec_unzigzag(n as int) as i32, j))
        } else {
            None
        },
        None => None,
    }
}

/// Decoding inverts encoding for signed 32-bit values.
pub proof fn lemma_i32_round_trip(b: Seq<u8>, i: int, v: i32)
    requires
        0 <= i,
        i + spec_enc_i32(v).len() <= b.len(),
        b.subrange(i, i + spec_enc_i32(v).len() as int) == spec_enc_i32(v),
    ensures
        spec_dec_i32(b, i) == Some((v, i + spec_enc_i32(v).len())),
{
    lemma_zigzag_round_trip(v as int);
    lemma_varint_round_trip(b, i, spec_zigzag(v as int) as u64);
}

/// The fixed eight-byte little-endian encoding of a 64-bit value.
pub open spec fn spec_enc_u64_fixed(v: u64) -> Seq<u8> {
    spec_le_bytes(v as int, 8)
}

/// Decode a fixed eight-byte little-endian 64-bit value.
pub open spec fn spec_dec_u64_fixed(b: Seq<u8>, i: int) -> Option<(u64, int)> {
    if 0 <= i && i + 8 <= b.len() {
        Some((spec_from_le(b.subrange(i, i + 8)) as u64, i + 8))
    } else {
        None
    }
}

/// Decoding inverts encoding for fixed 64-bit values.
pub proof fn lemma_u64_fixed_round_trip(b: Seq<u8>, i: int, v: u64)
    requires
        0 <= i,
        i + spec_enc_u64_fixed(v).len() <= b.len(),
        b.subrange(i, i + spec_enc_u64_fixed(v).len() as int) == spec_enc_u64_fixed(v),
    ensures
        spec_dec_u64_fixed(b, i) == Some((v, i + spec_enc_u64_fixed(v).len())),
{
    lemma_pow256_wide();
    lemma_le_round_trip(v as int, 8);
}

/// The fixed sixteen-byte little-endian encoding of a 128-bit value.
pub open spec fn spec_enc_u128_fixed(v: u128) -> Seq<u8> {
    spec_le_bytes(v as int, 16)
}

/// Decode a fixed sixteen-byte little-endian 128-bit value.
pub open spec fn spec_dec_u128_fixed(b: Seq<u8>, i: int) -> Option<(u128, int)> {
    if 0 <= i && i + 16 <= b.len() {
        Some((spec_from_le(b.subrange(i, i + 16)) as u128, i + 16))
    } else {
        None
    }
}

/// Decoding inverts encoding for fixed 128-bit values.
pub proof fn lemma_u128_fixed_round_trip(b: Seq<u8>, i: int, v: u128)
    requires
        0 <= i,
        i + spec_enc_u128_fixed(v).len() <= b.len(),
        b.subrange(i, i + spec_enc_u128_fixed(v).len() as int) == spec_enc_u128_fixed(v),
    ensures
        spec_dec_u128_fixed(b, i) == Some((v, i + spec_enc_u128_fixed(v).len())),
{
    lemma_pow256_wide();
    lemma_le_round_trip(v as int, 16);
}

/// The encoding of one input event: a variant ordinal and its fields.
pub open spec fn spec_enc_event(ev: InputEvent) -> Seq<u8> {
    match ev {
        InputEvent::Key { code, state } => spec_enc_varint(0) + spec_enc_keycode(code)
            + spec_enc_varint(spec_button_state_ord(state)),
        InputEvent::MouseMove { dx, dy } => spec_enc_varint(1) + spec_enc_i32(dx) + spec_enc_i32(
            dy,
        ),
        InputEvent::MouseMoveAbsolute { x_bits, y_bits } => spec_enc_varint(2)
            + spec_enc_u64_fixed(x_bits) + spec_enc_u64_fixed(y_bits),
        InputEvent::MouseButton { button, state } => spec_enc_varint(3) + spec_enc_mouse_button(
            button,
        ) + spec_enc_varint(spec_button_state_ord(state)),
        InputEvent::Scroll { axis, direction, amount_bits } => spec_enc_varint(4)
            + spec_enc_varint(spec_axis_ord(axis)) + spec_enc_varint(spec_dir_ord(direction))
            + spec_enc_u64_fixed(amount_bits),
    }
}

/// Decode one input event.
pub open spec fn spec_dec_event(b: Seq<u8>, i: int) -> Option<(InputEvent, int)> {
    match spec_dec_varint(b, i) {
        Some((n, j)) => if n == 0 {
            match spec_dec_keycode(b, j) {
                Some((code, j2)) => match spec_dec_varint(b, j2) {
                    Some((so, j3)) => match spec_button_state_from_ord(so) {
                        Some(state) => Some((InputEvent::Key { code, state }, j3)),
                        None => None,
                    },
                    None => None,
                },
                None => None,
            }
        } else if n == 1 {
            match spec_dec_i32(b, j) {
                Some((dx, j2)) => match spec_dec_i32(b, j2) {
                    Some((dy, j3)) => Some((InputEvent::MouseMove { dx, dy }, j3)),
                    None => None,
                },
                None => None,
            }
        } else if n == 2 {
            match spec_dec_u64_fixed(b, j) {
                Some((x_bits, j2)) => match spec_dec_u64_fixed(b, j2) {
                    Some((y_bits, j3)) => Some(
                        (InputEvent::MouseMoveAbsolute { x_bits, y_bits }, j3),
                    ),
                    None => None,
                },
                None => None,
            }
        } else if n == 3 {
            match spec_dec_mouse_button(b, j) {
                Some((button, j2)) => match spec_dec_varint(b, j2) {
                    Some((so, j3)) => match spec_button_state_from_ord(so) {
                        Some(state) => Some((InputEvent::MouseButton { button, state }, j3)),
                        None => None,
                    },
                    None => None,
                },
                None => None,
            }
        } else if n == 4 {
            match spec_dec_varint(b, j) {
                Some((ao, j2)) => match spec_axis_from_ord(ao) {
                    Some(axis) => match spec_dec_varint(b, j2) {
                        Some((dor, j3)) => match spec_dir_from_ord(dor) {
                            Some(direction) => match spec_dec_u64_fixed(b, j3) {
                                Some((amount_bits, j4)) => Some(
                                    (InputEvent::Scroll { axis, direction, amount_bits }, j4),
                                ),
                                None => None,
                            },
                            None => None,
                        },
                        None => None,
                    },
                    None => None,
                },
                None => None,
            }
        } else {
            None
        },
        None => None,
    }
}

/// Decoding inverts encoding for input events.
#[verifier::rlimit(100)]
#[verifier::spinoff_prover]
pub proof fn lemma_event_round_trip(b: Seq<u8>, i: int, ev: InputEvent)
    requires
        0 <= i,
        i + spec_enc_event(ev).len() <= b.len(),
        b.subrange(i, i + spec_enc_event(ev).len() as int) == spec_enc_event(ev),
    ensures
        spec_dec_event(b, i) == Some((ev, i + spec_enc_event(ev).len())),
{
    match ev {
        InputEvent::Key { code, state } => {
            let e1 = spec_enc_varint(0);
            let e2 = spec_enc_keycode(code);
            let e3 = spec_enc_varint(spec_button_state_ord(state));
            assert(e1 + e2 + e3 =~= e1 + (e2 + e3));
            lemma_concat_prefix(b, i, e1, e2 + e3);
            lemma_concat_prefix(b, i + e1.len(), e2, e3);
            lemma_varint_round_trip(b, i, 0);
            lemma_keycode_round_trip(b, i + e1.len(), code);
            lemma_varint_round_trip(b, i + e1.len() + e2.len(), spec_button_state_ord(state));
        },
        InputEvent::MouseMove { dx, dy } => {
            let e1 = spec_enc_varint(1);
            let e2 = spec_enc_i32(dx);
            let e3 = spec_enc_i32(dy);
            assert(e1 + e2 + e3 =~= e1 + (e2 + e3));
            lemma_concat_prefix(b, i, e1, e2 + e3);
            lemma_concat_prefix(b, i + e1.len(), e2, e3);
            lemma_varint_round_trip(b, i, 1);
            lemma_i32_round_trip(b, i + e1.len(), dx);
            lemma_i32_round_trip(b, i + e1.len() + e2.len(), dy);
        },
        InputEvent::MouseMoveAbsolute { x_bits, y_bits } => {
            let e1 = spec_enc_varint(2);
            let e2 = spec_enc_u64_fixed(x_bits);
            let e3 = spec_enc_u64_fixed(y_bits);
            assert(e1 + e2 + e3 =~= e1 + (e2 + e3));
            lemma_concat_prefix(b, i, e1, e2 + e3);
            lemma_concat_prefix(b, i + e1.len(), e2, e3);
            lemma_varint_round_trip(b, i, 2);
            lemma_u64_fixed_round_trip(b, i + e1.len(), x_bits);
            lemma_u64_fixed_round_trip(b, i + e1.len() + e2.len(), y_bits);
        },
        InputEvent::MouseButton { button, state } => {
            let e1 = spec_enc_varint(3);
            let e2 = spec_enc_mouse_button(button);
            let e3 = spec_enc_varint(spec_button_state_ord(state));
            assert(e1 + e2 + e3 =~= e1 + (e2 + e3));
            lemma_concat_prefix(b, i, e1, e2 + e3);
            lemma_concat_prefix(b, i + e1.len(), e2, e3);
            lemma_varint_round_trip(b, i, 3);
            lemma_mouse_button_round_trip(b, i + e1.len(), button);
            lemma_varint_round_trip(b, i + e1.len() + e2.len(), spec_button_state_ord(state));
        },
        InputEvent::Scroll { axis, direction, amount_bits } => {
            let e1 = spec_enc_varint(4);
            let e2 = spec_enc_varint(spec_axis_ord(axis));
            let e3 = spec_enc_varint(spec_dir_ord(direction));
            let e4 = spec_enc_u64_fixed(amount_bits);
            assert(e1 + e2 + e3 + e4 =~= e1 + (e2 + (e3 + e4)));
            lemma_concat_prefix(b, i, e1, e2 + (e3 + e4));
            lemma_concat_prefix(b, i + e1.len(), e2, e3 + e4);
            lemma_concat_prefix(b, i + e1.len() + e2.len(), e3, e4);
            lemma_varint_round_trip(b, i, 4);
            lemma_varint_round_trip(b, i + e1.len(), spec_axis_ord(axis));
            lemma_varint_round_trip(b, i + e1.len() + e2.len(), spec_dir_ord(direction));
            lemma_u64_fixed_round_trip(b, i + e1.len() + e2.len() + e3.len(), amount_bits);
        },
    }
}

/// The concatenated encodings of a list of input events.
pub open spec fn spec_enc_event_list(s: Seq<InputEvent>) -> Seq<u8>
    decreases s.len(),
{
    if s.len() == 0 {
        Seq::empty()
    } else {
        spec_enc_event(s[0]) + spec_enc_event_list(s.drop_first())
    }
}

/// The encoding of an event batch: a count, then the events.
pub open spec fn spec_enc_events(s: Seq<InputEvent>) -> Seq<u8> {
    spec_enc_varint(s.len() as u64) + spec_enc_event_list(s)
}

/// Decode `count` input events.
pub open spec fn spec_dec_event_list(b: Seq<u8>, i: int, count: nat) -> Option<(
    Seq<InputEvent>,
    int,
)>
    decreases count,
{
    if count == 0 {
        Some((Seq::empty(), i))
    } else {
        match spec_dec_event(b, i) {
            Some((ev, j)) => match spec_dec_event_list(b, j, (count - 1) as nat) {
                Some((rest, j2)) => Some((seq![ev] + rest, j2)),
                None => None,
            },
            None => None,
        }
    }
}

/// Decode an event batch.
pub open spec fn spec_dec_events(b: Seq<u8>, i: int) -> Option<(Seq<InputEvent>, int)> {
    match spec_dec_varint(b, i) {
        Some((n, j)) => spec_dec_event_list(b, j, n as nat),
        None => None,
    }
}

/// Decoding inverts encoding for event lists.
pub proof fn lemma_event_list_round_trip(b: Seq<u8>, i: int, s: Seq<InputEvent>)
    requires
        0 <= i,
        i + spec_enc_event_list(s).len() <= b.len(),
        b.subrange(i, i + spec_enc_event_list(s).len() as int) == spec_enc_event_list(s),
    ensures
        spec_dec_event_list(b, i, s.len()) == Some((s, i + spec_enc_event_list(s).len())),
    decreases s.len(),
{
    if s.len() > 0 {
        let e1 = spec_enc_event(s[0]);
        let e2 = spec_enc_event_list(s.drop_first());
        lemma_concat_prefix(b, i, e1, e2);
        lemma_event_round_trip(b, i, s[0]);
        lemma_event_list_round_trip(b, i + e1.len(), s.drop_first());
        assert(seq![s[0]] + s.drop_first() =~= s);
    }
}

/// Decoding inverts encoding for event batches.
pub proof fn lemma_events_round_trip(b: Seq<u8>, i: int, s: Seq<InputEvent>)
    requires
        0 <= i,
        s.len() <= 0xFFFF_FFFF,
        i + spec_enc_events(s).len() <= b.len(),
        b.subrange(i, i + spec_enc_events(s).len() as int) == spec_enc_events(s),
    ensures
        spec_dec_events(b, i) == Some((s, i + spec_enc_events(s).len())),
{
    let e1 = spec_enc_varint(s.len() as u64);
    let e2 = spec_enc_event_list(s);
    lemma_concat_prefix(b, i, e1, e2);
    lemma_varint_round_trip(b, i, s.len() as u64);
    lemma_event_list_round_trip(b, i + e1.len(), s);
}

/// The encoding of a byte array: a count, then the bytes.
pub open spec fn spec_enc_bytes(d: Seq<u8>) -> Seq<u8> {
    spec_enc_varint(d.len() as u64) + d
}

/// Decode a byte array.
pub open spec fn spec_dec_bytes(b: Seq<u8>, i: int) -> Option<(Seq<u8>, int)> {
    match spec_dec_varint(b, i) {
        Some((n, j)) => if j + n <= b.len() {
            Some((b.subrange(j, j + n as int), j + n as int))
        } else {
            None
        },
        None => None,
    }
}

/// Decoding inverts encoding for byte arrays.
pub proof fn lemma_bytes_round_trip(b: Seq<u8>, i: int, d: Seq<u8>)
    requires
        0 <= i,
        d.len() <= 0xFFFF_FFFF,
        i + spec_enc_bytes(d).len() <= b.len(),
        b.subrange(i, i + spec_enc_bytes(d).len() as int) == spec_enc_bytes(d),
    ensures
        spec_dec_bytes(b, i) == Some((d, i + spec_enc_bytes(d).len())),
{
    let e1 = spec_enc_varint(d.len() as u64);
    lemma_concat_prefix(b, i, e1, d);
    lemma_varint_round_trip(b, i, d.len() as u64);
}

/// The encoding of a string: the byte count, then its UTF-8 bytes.
pub open spec fn spec_enc_string(sv: Seq<char>) -> Seq<u8> {
    spec_enc_bytes(encode_utf8(sv))
}

/// Decode a string.
pub open spec fn spec_dec_string(b: Seq<u8>, i: int) -> Option<(Seq<char>, int)> {
    match spec_dec_bytes(b, i) {
        Some((d, j)) => if valid_utf8(d) {
            Some((decode_utf8(d), j))
        } else {
            None
        },
        None => None,
    }
}

/// Decoding inverts encoding for strings.
pub proof fn lemma_string_round_trip(b: Seq<u8>, i: int, sv: Seq<char>)
    requires
        0 <= i,
        encode_utf8(sv).len() <= 0xFFFF_FFFF,
        i + spec_enc_string(sv).len() <= b.len(),
        b.subrange(i, i + spec_enc_string(sv).len() as int) == spec_enc_string(sv),
    ensures
        spec_dec_string(b, i) == Some((sv, i + spec_enc_string(sv).len())),
{
    lemma_bytes_round_trip(b, i, encode_utf8(sv));
    vstd::utf8::encode_utf8_valid_utf8(sv);
    vstd::utf8::encode_utf8_decode_utf8(sv);
}

/// The ordinal of a device capability.
pub open spec fn spec_cap_ord(c: DeviceCapability) -> u64 {
    match c {
        DeviceCapability::Keyboard => 0,
        DeviceCapability::RelativeMouse => 1,
        DeviceCapability::AbsoluteMouse => 2,
        DeviceCapability::Scroll => 3,
    }
}

/// The device capability with this ordinal.
pub open spec fn spec_cap_from_ord(n: u64) -> Option<DeviceCapability> {
    if n == 0 {
        Some(DeviceCapability::Keyboard)
    } else if n == 1 {
        Some(DeviceCapability::RelativeMouse)
    } else if n == 2 {
        Some(DeviceCapability::AbsoluteMouse)
    } else if n == 3 {
        Some(DeviceCapability::Scroll)
    } else {
        None
    }
}

/// The concatenated encodings of a capability list.
pub open spec fn spec_enc_cap_list(s: Seq<DeviceCapability>) -> Seq<u8>
    decreases s.len(),
{
    if s.len() == 0 {
        Seq::empty()
    } else {
        spec_enc_varint(spec_cap_ord(s[0])) + spec_enc_cap_list(s.drop_first())
    }
}

/// The encoding of a capability set: a count, then the ordinals.
pub open spec fn spec_enc_caps(s: Seq<DeviceCapability>) -> Seq<u8> {
    spec_enc_varint(s.len() as u64) + spec_enc_cap_list(s)
}

/// Decode `count` capabilities.
pub open spec fn spec_dec_cap_list(b: Seq<u8>, i: int, count: nat) -> Option<(
    Seq<DeviceCapability>,
    int,
)>
    decreases count,
{
    if count == 0 {
        Some((Seq::empty(), i))
    } else {
        match spec_dec_varint(b, i) {
            Some((n, j)) => match spec_cap_from_ord(n) {
                Some(c) => match spec_dec_cap_list(b, j, (count - 1) as nat) {
                    Some((rest, j2)) => Some((seq![c] + rest, j2)),
                    None => None,
                },
                None => None,
            },
            None => None,
        }
    }
}

/// Decode a capability set.
pub open spec fn spec_dec_caps(b: Seq<u8>, i: int) -> Option<(Seq<DeviceCapability>, int)> {
    match spec_dec_varint(b, i) {
        Some((n, j)) => spec_dec_cap_list(b, j, n as nat),
        None => None,
    }
}

/// Decoding inverts encoding for capability lists.
pub proof fn lemma_cap_list_round_trip(b: Seq<u8>, i: int, s: Seq<DeviceCapability>)
    requires
        0 <= i,
        i + spec_enc_cap_list(s).len() <= b.len(),
        b.subrange(i, i + spec_enc_cap_list(s).len() as int) == spec_enc_cap_list(s),
    ensures
        spec_dec_cap_list(b, i, s.len()) == Some((s, i + spec_enc_cap_list(s).len())),
    decreases s.len(),
{
    if s.len() > 0 {
        let e1 = spec_enc_varint(spec_cap_ord(s[0]));
        let e2 = spec_enc_cap_list(s.drop_first());
        lemma_concat_prefix(b, i, e1, e2);
        lemma_varint_round_trip(b, i, spec_cap_ord(s[0]));
        lemma_cap_list_round_trip(b, i + e1.len(), s.drop_first());
        assert(seq![s[0]] + s.drop_first() =~= s);
    }
}

/// Decoding inverts encoding for capability sets.
pub proof fn lemma_caps_round_trip(b: Seq<u8>, i: int, s: Seq<DeviceCapability>)
    requires
        0 <= i,
        s.len() <= 0xFFFF_FFFF,
        i + spec_enc_caps(s).len() <= b.len(),
        b.subrange(i, i + spec_enc_caps(s).len() as int) == spec_enc_caps(s),
    ensures
        spec_dec_caps(b, i) == Some((s, i + spec_enc_caps(s).len())),
{
    let e1 = spec_enc_varint(s.len() as u64);
    let e2 = spec_enc_cap_list(s);
    lemma_concat_prefix(b, i, e1, e2);
    lemma_varint_round_trip(b, i, s.len() as u64);
    lemma_cap_list_round_trip(b, i + e1.len(), s);
}

/// The ordinal of a clipboard format.
pub open spec fn spec_format_ord(f: ClipboardFormat) -> u64 {
    match f {
        ClipboardFormat::PlainText => 0,
        ClipboardFormat::Html => 1,
        ClipboardFormat::Png => 2,
    }
}

/// The clipboard format with this ordinal.
pub open spec fn spec_format_from_ord(n: u64) -> Option<ClipboardFormat> {
    if n == 0 {
        Some(ClipboardFormat::PlainText)
    } else if n == 1 {
        Some(ClipboardFormat::Html)
    } else if n == 2 {
        Some(ClipboardFormat::Png)
    } else {
        None
    }
}

/// The concatenated encodings of a format list.
pub open spec fn spec_enc_format_list(s: Seq<ClipboardFormat>) -> Seq<u8>
    decreases s.len(),
{
    if s.len() == 0 {
        Seq::empty()
    } else {
        spec_enc_varint(spec_format_ord(s[0])) + spec_enc_format_list(s.drop_first())
    }
}

/// The encoding of a format set: a count, then the ordinals.
pub open spec fn spec_enc_formats(s: Seq<ClipboardFormat>) -> Seq<u8> {
    spec_enc_varint(s.len() as u64) + spec_enc_format_list(s)
}

/// Decode `count` formats.
pub open spec fn spec_dec_format_list(b: Seq<u8>, i: int, count: nat) -> Option<(
    Seq<ClipboardFormat>,
    int,
)>
    decreases count,
{
    if count == 0 {
        Some((Seq::empty(), i))
    } else {
        match spec_dec_varint(b, i) {
            Some((n, j)) => match spec_format_from_ord(n) {
                Some(c) => match spec_dec_format_list(b, j, (count - 1) as nat) {
                    Some((rest, j2)) => Some((seq![c] + rest, j2)),
                    None => None,
                },
                None => None,
            },
            None => None,
        }
    }
}

/// Decode a format set.
pub open spec fn spec_dec_formats(b: Seq<u8>, i: int) -> Option<(Seq<ClipboardFormat>, int)> {
    match spec_dec_varint(b, i) {
        Some((n, j)) => spec_dec_format_list(b, j, n as nat),
        None => None,
    }
}

/// Decoding inverts encoding for format lists.
pub proof fn lemma_format_list_round_trip(b: Seq<u8>, i: int, s: Seq<ClipboardFormat>)
    requires
        0 <= i,
        i + spec_enc_format_list(s).len() <= b.len(),
        b.subrange(i, i + spec_enc_format_list(s).len() as int) == spec_enc_format_list(s),
    ensures
        spec_dec_format_list(b, i, s.len()) == Some((s, i + spec_enc_format_list(s).len())),
    decreases s.len(),
{
    if s.len() > 0 {
        let e1 = spec_enc_varint(spec_format_ord(s[0]));
        let e2 = spec_enc_format_list(s.drop_first());
        lemma_concat_prefix(b, i, e1, e2);
        lemma_varint_round_trip(b, i, spec_format_ord(s[0]));
        lemma_format_list_round_trip(b, i + e1.len(), s.drop_first());
        assert(seq![s[0]] + s.drop_first() =~= s);
    }
}

/// Decoding inverts encoding for format sets.
pub proof fn lemma_formats_round_trip(b: Seq<u8>, i: int, s: Seq<ClipboardFormat>)
    requires
        0 <= i,
        s.len() <= 0xFFFF_FFFF,
        i + spec_enc_formats(s).len() <= b.len(),
        b.subrange(i, i + spec_enc_formats(s).len() as int) == spec_enc_formats(s),
    ensures
        spec_dec_formats(b, i) == Some((s, i + spec_enc_formats(s).len())),
{
    let e1 = spec_enc_varint(s.len() as u64);
    let e2 = spec_enc_format_list(s);
    lemma_concat_prefix(b, i, e1, e2);
    lemma_varint_round_trip(b, i, s.len() as u64);
    lemma_format_list_round_trip(b, i + e1.len(), s);
}

/// The encoding of a screen geometry.
pub open spec fn spec_enc_geometry(g: ScreenGeometry) -> Seq<u8> {
    spec_enc_u32(g.width) + spec_enc_u32(g.height) + spec_enc_i32(g.x) + spec_enc_i32(g.y)
}

/// Decode a screen geometry.
pub open spec fn spec_dec_geometry(b: Seq<u8>, i: int) -> Option<(ScreenGeometry, int)> {
    match spec_dec_u32(b, i) {
        Some((width, j)) => match spec_dec_u32(b, j) {
            Some((height, j2)) => match spec_dec_i32(b, j2) {
                Some((x, j3)) => match spec_dec_i32(b, j3) {
                    Some((y, j4)) => Some((ScreenGeometry { width, height, x, y }, j4)),
                    None => None,
                },
                None => None,
            },
            None => None,
        },
        None => None,
    }
}

/// Decoding inverts encoding for screen geometries.
pub proof fn lemma_geometry_round_trip(b: Seq<u8>, i: int, g: ScreenGeometry)
    requires
        0 <= i,
        i + spec_enc_geometry(g).len() <= b.len(),
        b.subrange(i, i + spec_enc_geometry(g).len() as int) == spec_enc_geometry(g),
    ensures
        spec_dec_geometry(b, i) == Some((g, i + spec_enc_geometry(g).len())),
{
    let e1 = spec_enc_u32(g.width);
    let e2 = spec_enc_u32(g.height);
    let e3 = spec_enc_i32(g.x);
    let e4 = spec_enc_i32(g.y);
    assert(e1 + e2 + e3 + e4 =~= e1 + (e2 + (e3 + e4)));
    lemma_concat_prefix(b, i, e1, e2 + (e3 + e4));
    lemma_concat_prefix(b, i + e1.len(), e2, e3 + e4);
    lemma_concat_prefix(b, i + e1.len() + e2.len(), e3, e4);
    lemma_u32_round_trip(b, i, g.width);
    lemma_u32_round_trip(b, i + e1.len(), g.height);
    lemma_i32_round_trip(b, i + e1.len() + e2.len(), g.x);
    lemma_i32_round_trip(b, i + e1.len() + e2.len() + e3.len(), g.y);
}

/// The encoding of a protocol version.
pub open spec fn spec_enc_version(v: ProtocolVersion) -> Seq<u8> {
    spec_enc_u16(v.major) + spec_enc_u16(v.minor)
}

/// Decode a protocol version.
pub open spec fn spec_dec_version(b: Seq<u8>, i: int) -> Option<(ProtocolVersion, int)> {
    match spec_dec_u16(b, i) {
        Some((major, j)) => match spec_dec_u16(b, j) {
            Some((minor, j2)) => Some((ProtocolVersion { major, minor }, j2)),
            None => None,
        },
        None => None,
    }
}

/// Decoding inverts encoding for protocol versions.
pub proof fn lemma_version_round_trip(b: Seq<u8>, i: int, v: ProtocolVersion)
    requires
        0 <= i,
        i + spec_enc_version(v).len() <= b.len(),
        b.subrange(i, i + spec_enc_version(v).len() as int) == spec_enc_version(v),
    ensures
        spec_dec_version(b, i) == Some((v, i + spec_enc_version(v).len())),
{
    lemma_concat_prefix(b, i, spec_enc_u16(v.major), spec_enc_u16(v.minor));
    lemma_u16_round_trip(b, i, v.major);
    lemma_u16_round_trip(b, i + spec_enc_u16(v.major).len(), v.minor);
}

/// The encoding of a device description.
pub open spec fn spec_enc_device_info(d: DeviceInfoV) -> Seq<u8> {
    spec_enc_u32(d.id.0) + spec_enc_string(d.name) + spec_enc_caps(d.capabilities)
}

/// Decode a device description.
pub open spec fn spec_dec_device_info(b: Seq<u8>, i: int) -> Option<(DeviceInfoV, int)> {
    match spec_dec_u32(b, i) {
        Some((id, j)) => match spec_dec_string(b, j) {
            Some((name, j2)) => match spec_dec_caps(b, j2) {
                Some((capabilities, j3)) => Some(
                    (DeviceInfoV { id: DeviceId(id), name, capabilities }, j3),
                ),
                None => None,
            },
            None => None,
        },
        None => None,
    }
}

/// Bounds under which a device description can be framed.
pub open spec fn spec_device_info_bounded(d: DeviceInfoV) -> bool {
    encode_utf8(d.name).len() <= 0xFFFF_FFFF && d.capabilities.len() <= 0xFFFF_FFFF
}

/// Decoding inverts encoding for device descriptions.
pub proof fn lemma_device_info_round_trip(b: Seq<u8>, i: int, d: DeviceInfoV)
    requires
        0 <= i,
        spec_device_info_bounded(d),
        i + spec_enc_device_info(d).len() <= b.len(),
        b.subrange(i, i + spec_enc_device_info(d).len() as int) == spec_enc_device_info(d),
    ensures
        spec_dec_device_info(b, i) == Some((d, i + spec_enc_device_info(d).len())),
{
    let e1 = spec_enc_u32(d.id.0);
    let e2 = spec_enc_string(d.name);
    let e3 = spec_enc_caps(d.capabilities);
    assert(e1 + e2 + e3 =~= e1 + (e2 + e3));
    lemma_concat_prefix(b, i, e1, e2 + e3);
    lemma_concat_prefix(b, i + e1.len(), e2, e3);
    lemma_u32_round_trip(b, i, d.id.0);
    lemma_string_round_trip(b, i + e1.len(), d.name);
    lemma_caps_round_trip(b, i + e1.len() + e2.len(), d.capabilities);
}

/// The encoding of an input message.
pub open spec fn spec_enc_input_message(m: InputMessageV) -> Seq<u8> {
    spec_enc_u32(m.device_id.0) + spec_enc_u64_fixed(m.timestamp_us) + spec_enc_events(m.events)
}

/// Decode an input message.
pub open spec fn spec_dec_input_message(b: Seq<u8>, i: int) -> Option<(InputMessageV, int)> {
    match spec_dec_u32(b, i) {
        Some((id, j)) => match spec_dec_u64_fixed(b, j) {
            Some((timestamp_us, j2)) => match spec_dec_events(b, j2) {
                Some((events, j3)) => Some(
                    (InputMessageV { device_id: DeviceId(id), timestamp_us, events }, j3),
                ),
                None => None,
            },
            None => None,
        },
        None => None,
    }
}

/// Bounds under which an input message can be framed.
pub open spec fn spec_input_message_bounded(m: InputMessageV) -> bool {
    m.events.len() <= 0xFFFF_FFFF
}

/// Decoding inverts encoding for input messages.
pub proof fn lemma_input_message_round_trip(b: Seq<u8>, i: int, m: InputMessageV)
    requires
        0 <= i,
        spec_input_message_bounded(m),
        i + spec_enc_input_message(m).len() <= b.len(),
        b.subrange(i, i + spec_enc_input_message(m).len() as int) == spec_enc_input_message(m),
    ensures
        spec_dec_input_message(b, i) == Some((m, i + spec_enc_input_message(m).len())),
{
    let e1 = spec_enc_u32(m.device_id.0);
    let e2 = spec_enc_u64_fixed(m.timestamp_us);
    let e3 = spec_enc_events(m.events);
    assert(e1 + e2 + e3 =~= e1 + (e2 + e3));
    lemma_concat_prefix(b, i, e1, e2 + e3);
    lemma_concat_prefix(b, i + e1.len(), e2, e3);
    lemma_u32_round_trip(b, i, m.device_id.0);
    lemma_u64_fixed_round_trip(b, i + e1.len(), m.timestamp_us);
    lemma_events_round_trip(b, i + e1.len() + e2.len(), m.events);
}

/// The encoding of a control message: a variant ordinal and its fields, in
/// declaration order.
pub open spec fn spec_enc_control(m: ControlMessageV) -> Seq<u8> {
    match m {
        ControlMessageV::Hello { version, machine_id, name, screen } => spec_enc_varint(0)
            + spec_enc_version(version) + spec_enc_u128_fixed(machine_id.0) + spec_enc_string(name)
            + spec_enc_geometry(screen),
        ControlMessageV::Welcome { version, machine_id, name, screen } => spec_enc_varint(1)
            + spec_enc_version(version) + spec_enc_u128_fixed(machine_id.0) + spec_enc_string(name)
            + spec_enc_geometry(screen),
        ControlMessageV::DeviceAnnounce(info) => spec_enc_varint(2) + spec_enc_device_info(info),
        ControlMessageV::DeviceGone { device_id } => spec_enc_varint(3) + spec_enc_u32(
            device_id.0,
        ),
        ControlMessageV::ScreenUpdate(screen) => spec_enc_varint(4) + spec_enc_geometry(screen),
        ControlMessageV::Enter { edge, position } => spec_enc_varint(5) + spec_enc_edge(edge)
            + spec_enc_u32(position),
        ControlMessageV::EnterAck => spec_enc_varint(6),
        ControlMessageV::Leave { edge, position } => spec_enc_varint(7) + spec_enc_edge(edge)
            + spec_enc_u32(position),
        ControlMessageV::Ping { seq } => spec_enc_varint(8) + spec_enc_u64_fixed(seq),
        ControlMessageV::Pong { seq } => spec_enc_varint(9) + spec_enc_u64_fixed(seq),
        ControlMessageV::Bye => spec_enc_varint(10),
    }
}

/// Decode a control message.
pub open spec fn spec_dec_control(b: Seq<u8>, i: int) -> Option<(ControlMessageV, int)> {
    match spec_dec_varint(b, i) {
        Some((n, j)) => if n == 0 || n == 1 {
            match spec_dec_version(b, j) {
                Some((version, j2)) => match spec_dec_u128_fixed(b, j2) {
                    Some((mid, j3)) => match spec_dec_string(b, j3) {
                        Some((name, j4)) => match spec_dec_geometry(b, j4) {
                            Some((screen, j5)) => if n == 0 {
                                Some(
                                    (
                                        ControlMessageV::Hello {
                                            version,
                                            machine_id: MachineId(mid),
                                            name,
                                            screen,
                                        },
                                        j5,
                                    ),
                                )
                            } else {
                                Some(
                                    (
                                        ControlMessageV::Welcome {
                                            version,
                                            machine_id: MachineId(mid),
                                            name,
                                            screen,
                                        },
                                        j5,
                                    ),
                                )
                            },
                            None => None,
                        },
                        None => None,
                    },
                    None => None,
                },
                None => None,
            }
        } else if n == 2 {
            match spec_dec_device_info(b, j) {
                Some((info, j2)) => Some((ControlMessageV::DeviceAnnounce(info), j2)),
                None => None,
            }
        } else if n == 3 {
            match spec_dec_u32(b, j) {
                Some((id, j2)) => Some(
                    (ControlMessageV::DeviceGone { device_id: DeviceId(id) }, j2),
                ),
                None => None,
            }
        } else if n == 4 {
            match spec_dec_geometry(b, j) {
                Some((screen, j2)) => Some((ControlMessageV::ScreenUpdate(screen), j2)),
                None => None,
            }
        } else if n == 5 || n == 7 {
            match spec_dec_edge(b, j) {
                Some((edge, j2)) => match spec_dec_u32(b, j2) {
                    Some((position, j3)) => if n == 5 {
                        Some((ControlMessageV::Enter { edge, position }, j3))
                    } else {
                        Some((ControlMessageV::Leave { edge, position }, j3))
                    },
                    None => None,
                },
                None => None,
            }
        } else if n == 6 {
            Some((ControlMessageV::EnterAck, j))
        } else if n == 8 || n == 9 {
            match spec_dec_u64_fixed(b, j) {
                Some((seq, j2)) => if n == 8 {
                    Some((ControlMessageV::Ping { seq }, j2))
                } else {
                    Some((ControlMessageV::Pong { seq }, j2))
                },
                None => None,
            }
        } else if n == 10 {
            Some((ControlMessageV::Bye, j))
        } else {
            None
        },
        None => None,
    }
}

/// Bounds under which a control message can be framed.
pub open spec fn spec_control_bounded(m: ControlMessageV) -> bool {
    match m {
        ControlMessageV::Hello { name, .. } => encode_utf8(name).len() <= 0xFFFF_FFFF,
        ControlMessageV::Welcome { name, .. } => encode_utf8(name).len() <= 0xFFFF_FFFF,
        ControlMessageV::DeviceAnnounce(info) => spec_device_info_bounded(info),
        _ => true,
    }
}

/// Decoding inverts encoding for control messages.
#[verifier::rlimit(100)]
#[verifier::spinoff_prover]
pub proof fn lemma_control_round_trip(b: Seq<u8>, i: int, m: ControlMessageV)
    requires
        0 <= i,
        spec_control_bounded(m),
        i + spec_enc_control(m).len() <= b.len(),
        b.subrange(i, i + spec_enc_control(m).len() as int) == spec_enc_control(m),
    ensures
        spec_dec_control(b, i) == Some((m, i + spec_enc_control(m).len())),
{
    match m {
        ControlMessageV::Hello { version, machine_id, name, screen } => {
            let e1 = spec_enc_varint(0);
            let e2 = spec_enc_version(version);
            let e3 = spec_enc_u128_fixed(machine_id.0);
            let e4 = spec_enc_string(name);
            let e5 = spec_enc_geometry(screen);
            assert(e1 + e2 + e3 + e4 + e5 =~= e1 + (e2 + (e3 + (e4 + e5))));
            lemma_concat_prefix(b, i, e1, e2 + (e3 + (e4 + e5)));
            lemma_concat_prefix(b, i + e1.len(), e2, e3 + (e4 + e5));
            lemma_concat_prefix(b, i + e1.len() + e2.len(), e3, e4 + e5);
            lemma_concat_prefix(b, i + e1.len() + e2.len() + e3.len(), e4, e5);
            lemma_varint_round_trip(b, i, 0);
            lemma_version_round_trip(b, i + e1.len(), version);
            lemma_u128_fixed_round_trip(b, i + e1.len() + e2.len(), machine_id.0);
            lemma_string_round_trip(b, i + e1.len() + e2.len() + e3.len(), name);
            lemma_geometry_round_trip(b, i + e1.len() + e2.len() + e3.len() + e4.len(), screen);
        },
        ControlMessageV::Welcome { version, machine_id, name, screen } => {
            let e1 = spec_enc_varint(1);
            let e2 = spec_enc_version(version);
            let e3 = spec_enc_u128_fixed(machine_id.0);
            let e4 = spec_enc_string(name);
            let e5 = spec_enc_geometry(screen);
            assert(e1 + e2 + e3 + e4 + e5 =~= e1 + (e2 + (e3 + (e4 + e5))));
            lemma_concat_prefix(b, i, e1, e2 + (e3 + (e4 + e5)));
            lemma_concat_prefix(b, i + e1.len(), e2, e3 + (e4 + e5));
            lemma_concat_prefix(b, i + e1.len() + e2.len(), e3, e4 + e5);
            lemma_concat_prefix(b, i + e1.len() + e2.len() + e3.len(), e4, e5);
            lemma_varint_round_trip(b, i, 1);
            lemma_version_round_trip(b, i + e1.len(), version);
            lemma_u128_fixed_round_trip(b, i + e1.len() + e2.len(), machine_id.0);
            lemma_string_round_trip(b, i + e1.len() + e2.len() + e3.len(), name);
            lemma_geometry_round_trip(b, i + e1.len() + e2.len() + e3.len() + e4.len(), screen);
        },
        ControlMessageV::DeviceAnnounce(info) => {
            let e1 = spec_enc_varint(2);
            let e2 = spec_enc_device_info(info);
            lemma_concat_prefix(b, i, e1, e2);
            lemma_varint_round_trip(b, i, 2);
            lemma_device_info_round_trip(b, i + e1.len(), info);
        },
        ControlMessageV::DeviceGone { device_id } => {
            let e1 = spec_enc_varint(3);
            let e2 = spec_enc_u32(device_id.0);
            lemma_concat_prefix(b, i, e1, e2);
            lemma_varint_round_trip(b, i, 3);
            lemma_u32_round_trip(b, i + e1.len(), device_id.0);
        },
        ControlMessageV::ScreenUpdate(screen) => {
            let e1 = spec_enc_varint(4);
            let e2 = spec_enc_geometry(screen);
            lemma_concat_prefix(b, i, e1, e2);
            lemma_varint_round_trip(b, i, 4);
            lemma_geometry_round_trip(b, i + e1.len(), screen);
        },
        ControlMessageV::Enter { edge, position } => {
            let e1 = spec_enc_varint(5);
            let e2 = spec_enc_edge(edge);
            let e3 = spec_enc_u32(position);
            assert(e1 + e2 + e3 =~= e1 + (e2 + e3));
            lemma_concat_prefix(b, i, e1, e2 + e3);
            lemma_concat_prefix(b, i + e1.len(), e2, e3);
            lemma_varint_round_trip(b, i, 5);
            lemma_edge_round_trip(b, i + e1.len(), edge);
            lemma_u32_round_trip(b, i + e1.len() + e2.len(), position);
        },
        ControlMessageV::EnterAck => {
            lemma_varint_round_trip(b, i, 6);
        },
        ControlMessageV::Leave { edge, position } => {
            let e1 = spec_enc_varint(7);
            let e2 = spec_enc_edge(edge);
            let e3 = spec_enc_u32(position);
            assert(e1 + e2 + e3 =~= e1 + (e2 + e3));
            lemma_concat_prefix(b, i, e1, e2 + e3);
            lemma_concat_prefix(b, i + e1.len(), e2, e3);
            lemma_varint_round_trip(b, i, 7);
            lemma_edge_round_trip(b, i + e1.len(), edge);
            lemma_u32_round_trip(b, i + e1.len() + e2.len(), position);
        },
        ControlMessageV::Ping { seq } => {
            let e1 = spec_enc_varint(8);
            let e2 = spec_enc_u64_fixed(seq);
            lemma_concat_prefix(b, i, e1, e2);
            lemma_varint_round_trip(b, i, 8);
            lemma_u64_fixed_round_trip(b, i + e1.len(), seq);
        },
        ControlMessageV::Pong { seq } => {
            let e1 = spec_enc_varint(9);
            let e2 = spec_enc_u64_fixed(seq);
            lemma_concat_prefix(b, i, e1, e2);
            lemma_varint_round_trip(b, i, 9);
            lemma_u64_fixed_round_trip(b, i + e1.len(), seq);
        },
        ControlMessageV::Bye => {
            lemma_varint_round_trip(b, i, 10);
        },
    }
}

/// The encoding of a clipboard payload.
pub open spec fn spec_enc_clipboard_content(c: ClipboardContentV) -> Seq<u8> {
    spec_enc_varint(spec_format_ord(c.format)) + spec_enc_bytes(c.data)
}

/// Decode a clipboard payload.
pub open spec fn spec_dec_clipboard_content(b: Seq<u8>, i: int) -> Option<(
    ClipboardContentV,
    int,
)> {
    match spec_dec_varint(b, i) {
        Some((n, j)) => match spec_format_from_ord(n) {
            Some(format) => match spec_dec_bytes(b, j) {
                Some((data, j2)) => Some((ClipboardContentV { format, data }, j2)),
                None => None,
            },
            None => None,
        },
        None => None,
    }
}

/// Decoding inverts encoding for clipboard payloads.
pub proof fn lemma_clipboard_content_round_trip(b: Seq<u8>, i: int, c: ClipboardContentV)
    requires
        0 <= i,
        c.data.len() <= 0xFFFF_FFFF,
        i + spec_enc_clipboard_content(c).len() <= b.len(),
        b.subrange(i, i + spec_enc_clipboard_content(c).len() as int) == spec_enc_clipboard_content(
            c,
        ),
    ensures
        spec_dec_clipboard_content(b, i) == Some((c, i + spec_enc_clipboard_content(c).len())),
{
    let e1 = spec_enc_varint(spec_format_ord(c.format));
    let e2 = spec_enc_bytes(c.data);
    lemma_concat_prefix(b, i, e1, e2);
    lemma_varint_round_trip(b, i, spec_format_ord(c.format));
    lemma_bytes_round_trip(b, i + e1.len(), c.data);
}

/// The encoding of a clipboard message.
pub open spec fn spec_enc_clipboard(m: ClipboardMessageV) -> Seq<u8> {
    match m {
        ClipboardMessageV::Offer { formats, size_hint } => spec_enc_varint(0) + spec_enc_formats(
            formats,
        ) + spec_enc_u64_fixed(size_hint),
        ClipboardMessageV::Request { format } => spec_enc_varint(1) + spec_enc_varint(
            spec_format_ord(format),
        ),
        ClipboardMessageV::Data(content) => spec_enc_varint(2) + spec_enc_clipboard_content(
            content,
        ),
    }
}

/// Decode a clipboard message.
pub open spec fn spec_dec_clipboard(b: Seq<u8>, i: int) -> Option<(ClipboardMessageV, int)> {
    match spec_dec_varint(b, i) {
        Some((n, j)) => if n == 0 {
            match spec_dec_formats(b, j) {
                Some((formats, j2)) => match spec_dec_u64_fixed(b, j2) {
                    Some((size_hint, j3)) => Some(
                        (ClipboardMessageV::Offer { formats, size_hint }, j3),
                    ),
                    None => None,
                },
                None => None,
            }
        } else if n == 1 {
            match spec_dec_varint(b, j) {
                Some((fo, j2)) => match spec_format_from_ord(fo) {
                    Some(format) => Some((ClipboardMessageV::Request { format }, j2)),
                    None => None,
                },
                None => None,
            }
        } else if n == 2 {
            match spec_dec_clipboard_content(b, j) {
                Some((content, j2)) => Some((ClipboardMessageV::Data(content), j2)),
                None => None,
            }
        } else {
            None
        },
        None => None,
    }
}

/// Bounds under which a clipboard message can be framed.
pub open spec fn spec_clipboard_bounded(m: ClipboardMessageV) -> bool {
    match m {
        ClipboardMessageV::Offer { formats, .. } => formats.len() <= 0xFFFF_FFFF,
        ClipboardMessageV::Request { .. } => true,
        ClipboardMessageV::Data(content) => content.data.len() <= 0xFFFF_FFFF,
    }
}

/// Decoding inverts encoding for clipboard messages.
pub proof fn lemma_clipboard_round_trip(b: Seq<u8>, i: int, m: ClipboardMessageV)
    requires
        0 <= i,
        spec_clipboard_bounded(m),
        i + spec_enc_clipboard(m).len() <= b.len(),
        b.subrange(i, i + spec_enc_clipboard(m).len() as int) == spec_enc_clipboard(m),
    ensures
        spec_dec_clipboard(b, i) == Some((m, i + spec_enc_clipboard(m).len())),
{
    match m {
        ClipboardMessageV::Offer { formats, size_hint } => {
            let e1 = spec_enc_varint(0);
            let e2 = spec_enc_formats(formats);
            let e3 = spec_enc_u64_fixed(size_hint);
            assert(e1 + e2 + e3 =~= e1 + (e2 + e3));
            lemma_concat_prefix(b, i, e1, e2 + e3);
            lemma_concat_prefix(b, i + e1.len(), e2, e3);
            lemma_varint_round_trip(b, i, 0);
            lemma_formats_round_trip(b, i + e1.len(), formats);
            lemma_u64_fixed_round_trip(b, i + e1.len() + e2.len(), size_hint);
        },
        ClipboardMessageV::Request { format } => {
            let e1 = spec_enc_varint(1);
            let e2 = spec_enc_varint(spec_format_ord(format));
            lemma_concat_prefix(b, i, e1, e2);
            lemma_varint_round_trip(b, i, 1);
            lemma_varint_round_trip(b, i + e1.len(), spec_format_ord(format));
        },
        ClipboardMessageV::Data(content) => {
            let e1 = spec_enc_varint(2);
            let e2 = spec_enc_clipboard_content(content);
            lemma_concat_prefix(b, i, e1, e2);
            lemma_varint_round_trip(b, i, 2);
            lemma_clipboard_content_round_trip(b, i + e1.len(), content);
        },
    }
}

/// The encoding of a message envelope.
pub open spec fn spec_enc_message(m: MessageV) -> Seq<u8> {
    match m {
        MessageV::Control(c) => spec_enc_varint(0) + spec_enc_control(c),
        MessageV::Input(im) => spec_enc_varint(1) + spec_enc_input_message(im),
        MessageV::Clipboard(cm) => spec_enc_varint(2) + spec_enc_clipboard(cm),
    }
}

/// Decode a message envelope.
pub open spec fn spec_dec_message(b: Seq<u8>, i: int) -> Option<(MessageV, int)> {
    match spec_dec_varint(b, i) {
        Some((n, j)) => if n == 0 {
            match spec_dec_control(b, j) {
                Some((c, j2)) => Some((MessageV::Control(c), j2)),
                None => None,
            }
        } else if n == 1 {
            match spec_dec_input_message(b, j) {
                Some((im, j2)) => Some((MessageV::Input(im), j2)),
                None => None,
            }
        } else if n == 2 {
            match spec_dec_clipboard(b, j) {
                Some((cm, j2)) => Some((MessageV::Clipboard(cm), j2)),
                None => None,
            }
        } else {
            None
        },
        None => None,
    }
}

/// Bounds under which a message can be framed: each variable-length part
/// fits the length fields.
pub open spec fn spec_message_bounded(m: MessageV) -> bool {
    match m {
        MessageV::Control(c) => spec_control_bounded(c),
        MessageV::Input(im) => spec_input_message_bounded(im),
        MessageV::Clipboard(cm) => spec_clipboard_bounded(cm),
    }
}

/// Law: decoding inverts encoding, for every message. In particular
/// re-encoding what was decoded from an encoding gives the same bytes.
pub proof fn lemma_message_round_trip(b: Seq<u8>, i: int, m: MessageV)
    requires
        0 <= i,
        spec_message_bounded(m),
        i + spec_enc_message(m).len() <= b.len(),
        b.subrange(i, i + spec_enc_message(m).len() as int) == spec_enc_message(m),
    ensures
        spec_dec_message(b, i) == Some((m, i + spec_enc_message(m).len())),
{
    match m {
        MessageV::Control(c) => {
            let e1 = spec_enc_varint(0);
            let e2 = spec_enc_control(c);
            lemma_concat_prefix(b, i, e1, e2);
            lemma_varint_round_trip(b, i, 0);
            lemma_control_round_trip(b, i + e1.len(), c);
        },
        MessageV::Input(im) => {
            let e1 = spec_enc_varint(1);
            let e2 = spec_enc_input_message(im);
            lemma_concat_prefix(b, i, e1, e2);
            lemma_varint_round_trip(b, i, 1);
            lemma_input_message_round_trip(b, i + e1.len(), im);
        },
        MessageV::Clipboard(cm) => {
            let e1 = spec_enc_varint(2);
            let e2 = spec_enc_clipboard(cm);
            lemma_concat_prefix(b, i, e1, e2);
            lemma_varint_round_trip(b, i, 2);
            lemma_clipboard_round_trip(b, i + e1.len(), cm);
        },
    }
}

/// Law: re-encoding what an encoding decodes to yields the same bytes, for
/// every message: the encoding is a canonical form.
pub proof fn lemma_encode_decode_encode(m: MessageV)
    requires
        spec_message_bounded(m),
    ensures
        spec_dec_message(spec_enc_message(m), 0) matches Some((m2, n)) && spec_enc_message(m2)
            == spec_enc_message(m) && m2 == m && n == spec_enc_message(m).len(),
{
    let b = spec_enc_message(m);
    assert(b.subrange(0, b.len() as int) =~= b);
    lemma_message_round_trip(b, 0, m);
}

/// The ordinal of a key code, executable form.
fn keycode_ord(k: KeyCode) -> (r: u64)
    ensures
        r == spec_keycode_ord(k),
{
    match k {
        KeyCode::KeyA => 0,
        KeyCode::KeyB => 1,
        KeyCode::KeyC => 2,
        KeyCode::KeyD => 3,
        KeyCode::KeyE => 4,
        KeyCode::KeyF => 5,
        KeyCode::KeyG => 6,
        KeyCode::KeyH => 7,
        KeyCode::KeyI => 8,
        KeyCode::KeyJ => 9,
        KeyCode::KeyK => 10,
        KeyCode::KeyL => 11,
        KeyCode::KeyM => 12,
        KeyCode::KeyN => 13,
        KeyCode::KeyO => 14,
        KeyCode::KeyP => 15,
        KeyCode::KeyQ => 16,
        KeyCode::KeyR => 17,
        KeyCode::KeyS => 18,
        KeyCode::KeyT => 19,
        KeyCode::KeyU => 20,
        KeyCode::KeyV => 21,
        KeyCode::KeyW => 22,
        KeyCode::KeyX => 23,
        KeyCode::KeyY => 24,
        KeyCode::KeyZ => 25,
        KeyCode::Digit0 => 26,
        KeyCode::Digit1 => 27,
        KeyCode::Digit2 => 28,
        KeyCode::Digit3 => 29,
        KeyCode::Digit4 => 30,
        KeyCode::Digit5 => 31,
        KeyCode::Digit6 => 32,
        KeyCode::Digit7 => 33,
        KeyCode::Digit8 => 34,
        KeyCode::Digit9 => 35,
        KeyCode::F1 => 36,
        KeyCode::F2 => 37,
        KeyCode::F3 => 38,
        KeyCode::F4 => 39,
        KeyCode::F5 => 40,
        KeyCode::F6 => 41,
        KeyCode::F7 => 42,
        KeyCode::F8 => 43,
        KeyCode::F9 => 44,
        KeyCode::F10 => 45,
        KeyCode::F11 => 46,
        KeyCode::F12 => 47,
        KeyCode::LeftShift => 48,
        KeyCode::RightShift => 49,
        KeyCode::LeftCtrl => 50,
        KeyCode::RightCtrl => 51,
        KeyCode::LeftAlt => 52,
        KeyCode::RightAlt => 53,
        KeyCode::LeftMeta => 54,
        KeyCode::RightMeta => 55,
        KeyCode::Enter => 56,
        KeyCode::Escape => 57,
        KeyCode::Backspace => 58,
        KeyCode::Tab => 59,
        KeyCode::Space => 60,
        KeyCode::CapsLock => 61,
        KeyCode::PrintScreen => 62,
        KeyCode::ScrollLock => 63,
        KeyCode::Pause => 64,
        KeyCode::Insert => 65,
        KeyCode::Delete => 66,
        KeyCode::Home => 67,
        KeyCode::End => 68,
        KeyCode::PageUp => 69,
        KeyCode::PageDown => 70,
        KeyCode::ArrowUp => 71,
        KeyCode::ArrowDown => 72,
        KeyCode::ArrowLeft => 73,
        KeyCode::ArrowRight => 74,
        KeyCode::Minus => 75,
        KeyCode::Equal => 76,
        KeyCode::BracketLeft => 77,
        KeyCode::BracketRight => 78,
        KeyCode::Backslash => 79,
        KeyCode::Semicolon => 80,
        KeyCode::Quote => 81,
        KeyCode::Backquote => 82,
        KeyCode::Comma => 83,
        KeyCode::Period => 84,
        KeyCode::Slash => 85,
        KeyCode::NumLock => 86,
        KeyCode::NumpadDivide => 87,
        KeyCode::NumpadMultiply => 88,
        KeyCode::NumpadSubtract => 89,
        KeyCode::NumpadAdd => 90,
        KeyCode::NumpadEnter => 91,
        KeyCode::Numpad0 => 92,
        KeyCode::Numpad1 => 93,
        KeyCode::Numpad2 => 94,
        KeyCode::Numpad3 => 95,
        KeyCode::Numpad4 => 96,
        KeyCode::Numpad5 => 97,
        KeyCode::Numpad6 => 98,
        KeyCode::Numpad7 => 99,
        KeyCode::Numpad8 => 100,
        KeyCode::Numpad9 => 101,
        KeyCode::NumpadDecimal => 102,
        KeyCode::Mute => 103,
        KeyCode::VolumeUp => 104,
        KeyCode::VolumeDown => 105,
        KeyCode::Unknown(_) => 106,
    }
}

/// The key code with this ordinal, executable form.
fn keycode_from_ord(n: u64) -> (r: Option<KeyCode>)
    ensures
        r == spec_keycode_from_ord(n),
{
    if false {
        None
    } else if n == 0 {
        Some(KeyCode::KeyA)
    } else if n == 1 {
        Some(KeyCode::KeyB)
    } else if n == 2 {
        Some(KeyCode::KeyC)
    } else if n == 3 {
        Some(KeyCode::KeyD)
    } else if n == 4 {
        Some(KeyCode::KeyE)
    } else if n == 5 {
        Some(KeyCode::KeyF)
    } else if n == 6 {
        Some(KeyCode::KeyG)
    } else if n == 7 {
        Some(KeyCode::KeyH)
    } else if n == 8 {
        Some(KeyCode::KeyI)
    } else if n == 9 {
        Some(KeyCode::KeyJ)
    } else if n == 10 {
        Some(KeyCode::KeyK)
    } else if n == 11 {
        Some(KeyCode::KeyL)
    } else if n == 12 {
        Some(KeyCode::KeyM)
    } else if n == 13 {
        Some(KeyCode::KeyN)
    } else if n == 14 {
        Some(KeyCode::KeyO)
    } else if n == 15 {
        Some(KeyCode::KeyP)
    } else if n == 16 {
        Some(KeyCode::KeyQ)
    } else if n == 17 {
        Some(KeyCode::KeyR)
    } else if n == 18 {
        Some(KeyCode::KeyS)
    } else if n == 19 {
        Some(KeyCode::KeyT)
    } else if n == 20 {
        Some(KeyCode::KeyU)
    } else if n == 21 {
        Some(KeyCode::KeyV)
    } else if n == 22 {
        Some(KeyCode::KeyW)
    } else if n == 23 {
        Some(KeyCode::KeyX)
    } else if n == 24 {
        Some(KeyCode::KeyY)
    } else if n == 25 {
        Some(KeyCode::KeyZ)
    } else if n == 26 {
        Some(KeyCode::Digit0)
    } else if n == 27 {
        Some(KeyCode::Digit1)
    } else if n == 28 {
        Some(KeyCode::Digit2)
    } else if n == 29 {
        Some(KeyCode::Digit3)
    } else if n == 30 {
        Some(KeyCode::Digit4)
    } else if n == 31 {
        Some(KeyCode::Digit5)
    } else if n == 32 {
        Some(KeyCode::Digit6)
    } else if n == 33 {
        Some(KeyCode::Digit7)
    } else if n == 34 {
        Some(KeyCode::Digit8)
    } else if n == 35 {
        Some(KeyCode::Digit9)
    } else if n == 36 {
        Some(KeyCode::F1)
    } else if n == 37 {
        Some(KeyCode::F2)
    } else if n == 38 {
        Some(KeyCode::F3)
    } else if n == 39 {
        Some(KeyCode::F4)
    } else if n == 40 {
        Some(KeyCode::F5)
    } else if n == 41 {
        Some(KeyCode::F6)
    } else if n == 42 {
        Some(KeyCode::F7)
    } else if n == 43 {
        Some(KeyCode::F8)
    } else if n == 44 {
        Some(KeyCode::F9)
    } else if n == 45 {
        Some(KeyCode::F10)
    } else if n == 46 {
        Some(KeyCode::F11)
    } else if n == 47 {
        Some(KeyCode::F12)
    } else if n == 48 {
        Some(KeyCode::LeftShift)
    } else if n == 49 {
        Some(KeyCode::RightShift)
    } else if n == 50 {
        Some(KeyCode::LeftCtrl)
    } else if n == 51 {
        Some(KeyCode::RightCtrl)
    } else if n == 52 {
        Some(KeyCode::LeftAlt)
    } else if n == 53 {
        Some(KeyCode::RightAlt)
    } else if n == 54 {
        Some(KeyCode::LeftMeta)
    } else if n == 55 {
        Some(KeyCode::RightMeta)
    } else if n == 56 {
        Some(KeyCode::Enter)
    } else if n == 57 {
        Some(KeyCode::Escape)
    } else if n == 58 {
        Some(KeyCode::Backspace)
    } else if n == 59 {
        Some(KeyCode::Tab)
    } else if n == 60 {
        Some(KeyCode::Space)
    } else if n == 61 {
        Some(KeyCode::CapsLock)
    } else if n == 62 {
        Some(KeyCode::PrintScreen)
    } else if n == 63 {
        Some(KeyCode::ScrollLock)
    } else if n == 64 {
        Some(KeyCode::Pause)
    } else if n == 65 {
        Some(KeyCode::Insert)
    } else if n == 66 {
        Some(KeyCode::Delete)
    } else if n == 67 {
        Some(KeyCode::Home)
    } else if n == 68 {
        Some(KeyCode::End)
    } else if n == 69 {
        Some(KeyCode::PageUp)
    } else if n == 70 {
        Some(KeyCode::PageDown)
    } else if n == 71 {
        Some(KeyCode::ArrowUp)
    } else if n == 72 {
        Some(KeyCode::ArrowDown)
    } else if n == 73 {
        Some(KeyCode::ArrowLeft)
    } else if n == 74 {
        Some(KeyCode::ArrowRight)
    } else if n == 75 {
        Some(KeyCode::Minus)
    } else if n == 76 {
        Some(KeyCode::Equal)
    } else if n == 77 {
        Some(KeyCode::BracketLeft)
    } else if n == 78 {
        Some(KeyCode::BracketRight)
    } else if n == 79 {
        Some(KeyCode::Backslash)
    } else if n == 80 {
        Some(KeyCode::Semicolon)
    } else if n == 81 {
        Some(KeyCode::Quote)
    } else if n == 82 {
        Some(KeyCode::Backquote)
    } else if n == 83 {
        Some(KeyCode::Comma)
    } else if n == 84 {
        Some(KeyCode::Period)
    } else if n == 85 {
        Some(KeyCode::Slash)
    } else if n == 86 {
        Some(KeyCode::NumLock)
    } else if n == 87 {
        Some(KeyCode::NumpadDivide)
    } else if n == 88 {
        Some(KeyCode::NumpadMultiply)
    } else if n == 89 {
        Some(KeyCode::NumpadSubtract)
    } else if n == 90 {
        Some(KeyCode::NumpadAdd)
    } else if n == 91 {
        Some(KeyCode::NumpadEnter)
    } else if n == 92 {
        Some(KeyCode::Numpad0)
    } else if n == 93 {
        Some(KeyCode::Numpad1)
    } else if n == 94 {
        Some(KeyCode::Numpad2)
    } else if n == 95 {
        Some(KeyCode::Numpad3)
    } else if n == 96 {
        Some(KeyCode::Numpad4)
    } else if n == 97 {
        Some(KeyCode::Numpad5)
    } else if n == 98 {
        Some(KeyCode::Numpad6)
    } else if n == 99 {
        Some(KeyCode::Numpad7)
    } else if n == 100 {
        Some(KeyCode::Numpad8)
    } else if n == 101 {
        Some(KeyCode::Numpad9)
    } else if n == 102 {
        Some(KeyCode::NumpadDecimal)
    } else if n == 103 {
        Some(KeyCode::Mute)
    } else if n == 104 {
        Some(KeyCode::VolumeUp)
    } else if n == 105 {
        Some(KeyCode::VolumeDown)
    } else {
        None
    }
}

/// Append the eight fixed little-endian bytes of `v`.
fn enc_u64_fixed(buf: &mut Vec<u8>, v: u64)
    ensures
        final(buf)@ == old(buf)@ + spec_enc_u64_fixed(v),
{
    let mut x = v;
    let ghost gstart = buf@;
    let mut k: usize = 0;
    while k < 8
        invariant
            k <= 8,
            x as int == spec_le_val(v as int, k as nat),
            buf@ == gstart + spec_le_partial(v as int, k as nat),
        decreases 8 - k,
    {
        buf.push((x % 256) as u8);
        proof {
            assert(spec_le_partial(v as int, (k + 1) as nat) =~= spec_le_partial(
                v as int,
                k as nat,
            ).push((spec_le_val(v as int, k as nat) % 256) as u8));
            assert(buf@ =~= gstart + spec_le_partial(v as int, (k + 1) as nat));
        }
        x = x / 256;
        k = k + 1;
    }
    proof {
        lemma_le_partial_is_le_bytes(v as int, 8);
        assert(buf@ =~= old(buf)@ + spec_enc_u64_fixed(v));
    }
}

/// Append the sixteen fixed little-endian bytes of `v`.
fn enc_u128_fixed(buf: &mut Vec<u8>, v: u128)
    ensures
        final(buf)@ == old(buf)@ + spec_enc_u128_fixed(v),
{
    let mut x = v;
    let ghost gstart = buf@;
    let mut k: usize = 0;
    while k < 16
        invariant
            k <= 16,
            x as int == spec_le_val(v as int, k as nat),
            buf@ == gstart + spec_le_partial(v as int, k as nat),
        decreases 16 - k,
    {
        buf.push((x % 256) as u8);
        proof {
            assert(spec_le_partial(v as int, (k + 1) as nat) =~= spec_le_partial(
                v as int,
                k as nat,
            ).push((spec_le_val(v as int, k as nat) % 256) as u8));
            assert(buf@ =~= gstart + spec_le_partial(v as int, (k + 1) as nat));
        }
        x = x / 256;
        k = k + 1;
    }
    proof {
        lemma_le_partial_is_le_bytes(v as int, 16);
        assert(buf@ =~= old(buf)@ + spec_enc_u128_fixed(v));
    }
}

/// Append a zigzag-folded signed 32-bit value.
fn enc_i32(buf: &mut Vec<u8>, v: i32)
    ensures
        final(buf)@ == old(buf)@ + spec_enc_i32(v),
{
    let z: u64 = if v >= 0 {
        2 * (v as u64)
    } else {
        let m: i64 = -(v as i64);
        (2 * m - 1) as u64
    };
    proof {
        assert(z as int == spec_zigzag(v as int));
    }
    enc_varint(buf, z);
}

/// Append a string: its byte count, then its UTF-8 bytes.
fn enc_string(buf: &mut Vec<u8>, sv: &str)
    ensures
        final(buf)@ == old(buf)@ + spec_enc_string(sv@),
{
    let bytes = sv.as_bytes();
    enc_varint(buf, bytes.len() as u64);
    let ghost mid = buf@;
    let mut j: usize = 0;
    while j < bytes.len()
        invariant
            j <= bytes@.len(),
            buf@ == mid + bytes@.take(j as int),
        decreases bytes@.len() - j,
    {
        buf.push(bytes[j]);
        proof {
            assert(buf@ =~= mid + bytes@.take(j + 1));
        }
        j = j + 1;
    }
    proof {
        assert(bytes@.take(bytes@.len() as int) =~= bytes@);
        assert(buf@ =~= old(buf)@ + spec_enc_string(sv@));
    }
}

/// Append a byte array: its count, then its bytes.
fn enc_bytes(buf: &mut Vec<u8>, d: &Vec<u8>)
    ensures
        final(buf)@ == old(buf)@ + spec_enc_bytes(d@),
{
    enc_varint(buf, d.len() as u64);
    let ghost mid = buf@;
    let mut j: usize = 0;
    while j < d.len()
        invariant
            j <= d@.len(),
            buf@ == mid + d@.take(j as int),
        decreases d@.len() - j,
    {
        buf.push(d[j]);
        proof {
            assert(buf@ =~= mid + d@.take(j + 1));
        }
        j = j + 1;
    }
    proof {
        assert(d@.take(d@.len() as int) =~= d@);
        assert(buf@ =~= old(buf)@ + spec_enc_bytes(d@));
    }
}

/// Append one input event.
fn enc_event(buf: &mut Vec<u8>, ev: &InputEvent)
    ensures
        final(buf)@ == old(buf)@ + spec_enc_event(*ev),
{
    match *ev {
        InputEvent::Key { code, state } => {
            enc_varint(buf, 0);
            enc_varint(buf, keycode_ord(code));
            match code {
                KeyCode::Unknown(raw) => {
                    enc_varint(buf, raw as u64);
                },
                _ => {},
            }
            enc_varint(buf, match state {
                ButtonState::Pressed => 0,
                ButtonState::Released => 1,
            });
            proof {
                assert(buf@ =~= old(buf)@ + spec_enc_event(*ev));
            }
        },
        InputEvent::MouseMove { dx, dy } => {
            enc_varint(buf, 1);
            enc_i32(buf, dx);
            enc_i32(buf, dy);
            proof {
                assert(buf@ =~= old(buf)@ + spec_enc_event(*ev));
            }
        },
        InputEvent::MouseMoveAbsolute { x_bits, y_bits } => {
            enc_varint(buf, 2);
            enc_u64_fixed(buf, x_bits);
            enc_u64_fixed(buf, y_bits);
            proof {
                assert(buf@ =~= old(buf)@ + spec_enc_event(*ev));
            }
        },
        InputEvent::MouseButton { button, state } => {
            enc_varint(buf, 3);
            match button {
                MouseButton::Left => enc_varint(buf, 0),
                MouseButton::Right => enc_varint(buf, 1),
                MouseButton::Middle => enc_varint(buf, 2),
                MouseButton::Back => enc_varint(buf, 3),
                MouseButton::Forward => enc_varint(buf, 4),
                MouseButton::Other(code) => {
                    enc_varint(buf, 5);
                    enc_varint(buf, code as u64);
                },
            }
            enc_varint(buf, match state {
                ButtonState::Pressed => 0,
                ButtonState::Released => 1,
            });
            proof {
                assert(buf@ =~= old(buf)@ + spec_enc_event(*ev));
            }
        },
        InputEvent::Scroll { axis, direction, amount_bits } => {
            enc_varint(buf, 4);
            enc_varint(buf, match axis {
                ScrollAxis::Vertical => 0,
                ScrollAxis::Horizontal => 1,
            });
            enc_varint(buf, match direction {
                ScrollDirection::Positive => 0,
                ScrollDirection::Negative => 1,
            });
            enc_u64_fixed(buf, amount_bits);
            proof {
                assert(buf@ =~= old(buf)@ + spec_enc_event(*ev));
            }
        },
    }
}

/// Append an event batch.
fn enc_events(buf: &mut Vec<u8>, events: &Vec<InputEvent>)
    ensures
        final(buf)@ == old(buf)@ + spec_enc_events(events@),
{
    enc_varint(buf, events.len() as u64);
    let ghost mid = buf@;
    let mut j: usize = 0;
    while j < events.len()
        invariant
            j <= events@.len(),
            buf@ == mid + spec_enc_event_list(events@.take(j as int)),
        decreases events@.len() - j,
    {
        enc_event(buf, &events[j]);
        proof {
            lemma_enc_event_list_take(events@, j as int);
        }
        j = j + 1;
    }
    proof {
        assert(events@.take(events@.len() as int) =~= events@);
        assert(buf@ =~= old(buf)@ + spec_enc_events(events@));
    }
}

/// Extending a prefix by one event appends that event's encoding.
proof fn lemma_enc_event_list_take(s: Seq<InputEvent>, j: int)
    requires
        0 <= j < s.len(),
    ensures
        spec_enc_event_list(s.take(j + 1)) == spec_enc_event_list(s.take(j)) + spec_enc_event(
            s[j],
        ),
    decreases j,
{
    if j == 0 {
        assert(s.take(1).drop_first() =~= s.take(0));
        assert(spec_enc_event_list(s.take(1)) =~= spec_enc_event(s[0]) + spec_enc_event_list(
            s.take(0),
        ));
        assert(spec_enc_event_list(s.take(0)) =~= Seq::<u8>::empty());
        assert(spec_enc_event_list(s.take(1)) =~= spec_enc_event_list(s.take(0)) + spec_enc_event(
            s[0],
        ));
    } else {
        lemma_enc_event_list_take(s.drop_first(), j - 1);
        assert(s.take(j + 1).drop_first() =~= s.drop_first().take(j));
        assert(s.take(j).drop_first() =~= s.drop_first().take(j - 1));
        assert(s.take(j + 1)[0] == s[0] && s.take(j)[0] == s[0]);
        assert(s.drop_first()[j - 1] == s[j]);
        assert(spec_enc_event_list(s.take(j + 1)) =~= spec_enc_event(s[0])
            + spec_enc_event_list(s.drop_first().take(j)));
        assert(spec_enc_event_list(s.take(j)) =~= spec_enc_event(s[0]) + spec_enc_event_list(
            s.drop_first().take(j - 1),
        ));
        assert(spec_enc_event_list(s.take(j + 1)) =~= spec_enc_event_list(s.take(j))
            + spec_enc_event(s[j]));
    }
}

/// Append a capability set.
fn enc_caps(buf: &mut Vec<u8>, caps: &Vec<DeviceCapability>)
    ensures
        final(buf)@ == old(buf)@ + spec_enc_caps(caps@),
{
    enc_varint(buf, caps.len() as u64);
    let ghost mid = buf@;
    let mut j: usize = 0;
    while j < caps.len()
        invariant
            j <= caps@.len(),
            buf@ == mid + spec_enc_cap_list(caps@.take(j as int)),
        decreases caps@.len() - j,
    {
        enc_varint(buf, match caps[j] {
            DeviceCapability::Keyboard => 0,
            DeviceCapability::RelativeMouse => 1,
            DeviceCapability::AbsoluteMouse => 2,
            DeviceCapability::Scroll => 3,
        });
        proof {
            lemma_enc_cap_list_take(caps@, j as int);
        }
        j = j + 1;
    }
    proof {
        assert(caps@.take(caps@.len() as int) =~= caps@);
        assert(buf@ =~= old(buf)@ + spec_enc_caps(caps@));
    }
}

/// Extending a prefix by one capability appends its encoding.
proof fn lemma_enc_cap_list_take(s: Seq<DeviceCapability>, j: int)
    requires
        0 <= j < s.len(),
    ensures
        spec_enc_cap_list(s.take(j + 1)) == spec_enc_cap_list(s.take(j)) + spec_enc_varint(
            spec_cap_ord(s[j]),
        ),
    decreases j,
{
    if j == 0 {
        assert(s.take(1).drop_first() =~= s.take(0));
        assert(spec_enc_cap_list(s.take(0)) =~= Seq::<u8>::empty());
        assert(spec_enc_cap_list(s.take(1)) =~= spec_enc_cap_list(s.take(0)) + spec_enc_varint(
            spec_cap_ord(s[0]),
        ));
    } else {
        lemma_enc_cap_list_take(s.drop_first(), j - 1);
        assert(s.take(j + 1).drop_first() =~= s.drop_first().take(j));
        assert(s.take(j).drop_first() =~= s.drop_first().take(j - 1));
        assert(s.take(j + 1)[0] == s[0] && s.take(j)[0] == s[0]);
        assert(s.drop_first()[j - 1] == s[j]);
        assert(spec_enc_cap_list(s.take(j + 1)) =~= spec_enc_cap_list(s.take(j))
            + spec_enc_varint(spec_cap_ord(s[j])));
    }
}

/// Append a format set.
fn enc_formats(buf: &mut Vec<u8>, formats: &Vec<ClipboardFormat>)
    ensures
        final(buf)@ == old(buf)@ + spec_enc_formats(formats@),
{
    enc_varint(buf, formats.len() as u64);
    let ghost mid = buf@;
    let mut j: usize = 0;
    while j < formats.len()
        invariant
            j <= formats@.len(),
            buf@ == mid + spec_enc_format_list(formats@.take(j as int)),
        decreases formats@.len() - j,
    {
        enc_varint(buf, match formats[j] {
            ClipboardFormat::PlainText => 0,
            ClipboardFormat::Html => 1,
            ClipboardFormat::Png => 2,
        });
        proof {
            lemma_enc_format_list_take(formats@, j as int);
        }
        j = j + 1;
    }
    proof {
        assert(formats@.take(formats@.len() as int) =~= formats@);
        assert(buf@ =~= old(buf)@ + spec_enc_formats(formats@));
    }
}

/// Extending a prefix by one format appends its encoding.
proof fn lemma_enc_format_list_take(s: Seq<ClipboardFormat>, j: int)
    requires
        0 <= j < s.len(),
    ensures
        spec_enc_format_list(s.take(j + 1)) == spec_enc_format_list(s.take(j)) + spec_enc_varint(
            spec_format_ord(s[j]),
        ),
    decreases j,
{
    if j == 0 {
        assert(s.take(1).drop_first() =~= s.take(0));
        assert(spec_enc_format_list(s.take(0)) =~= Seq::<u8>::empty());
        assert(spec_enc_format_list(s.take(1)) =~= spec_enc_format_list(s.take(0))
            + spec_enc_varint(spec_format_ord(s[0])));
    } else {
        lemma_enc_format_list_take(s.drop_first(), j - 1);
        assert(s.take(j + 1).drop_first() =~= s.drop_first().take(j));
        assert(s.take(j).drop_first() =~= s.drop_first().take(j - 1));
        assert(s.take(j + 1)[0] == s[0] && s.take(j)[0] == s[0]);
        assert(s.drop_first()[j - 1] == s[j]);
        assert(spec_enc_format_list(s.take(j + 1)) =~= spec_enc_format_list(s.take(j))
            + spec_enc_varint(spec_format_ord(s[j])));
    }
}

/// Append a screen geometry.
fn enc_geometry(buf: &mut Vec<u8>, g: &ScreenGeometry)
    ensures
        final(buf)@ == old(buf)@ + spec_enc_geometry(*g),
{
    enc_varint(buf, g.width as u64);
    enc_varint(buf, g.height as u64);
    enc_i32(buf, g.x);
    enc_i32(buf, g.y);
    proof {
        assert(buf@ =~= old(buf)@ + spec_enc_geometry(*g));
    }
}

/// Append a protocol version.
fn enc_version(buf: &mut Vec<u8>, v: &ProtocolVersion)
    ensures
        final(buf)@ == old(buf)@ + spec_enc_version(*v),
{
    enc_varint(buf, v.major as u64);
    enc_varint(buf, v.minor as u64);
    proof {
        assert(buf@ =~= old(buf)@ + spec_enc_version(*v));
    }
}

/// Append a device description.
fn enc_device_info(buf: &mut Vec<u8>, d: &DeviceInfo)
    ensures
        final(buf)@ == old(buf)@ + spec_enc_device_info(d@),
{
    enc_varint(buf, d.id.0 as u64);
    enc_string(buf, d.name.as_str());
    enc_caps(buf, &d.capabilities);
    proof {
        assert(buf@ =~= old(buf)@ + spec_enc_device_info(d@));
    }
}

/// Append a control message.
#[verifier::rlimit(100)]
#[verifier::spinoff_prover]
fn enc_control(buf: &mut Vec<u8>, m: &ControlMessage)
    ensures
        final(buf)@ == old(buf)@ + spec_enc_control(m@),
{
    match m {
        ControlMessage::Hello { version, machine_id, name, screen } => {
            enc_varint(buf, 0);
            enc_version(buf, version);
            enc_u128_fixed(buf, machine_id.0);
            enc_string(buf, name.as_str());
            enc_geometry(buf, screen);
            proof {
                assert(buf@ =~= old(buf)@ + spec_enc_control(m@));
            }
        },
        ControlMessage::Welcome { version, machine_id, name, screen } => {
            enc_varint(buf, 1);
            enc_version(buf, version);
            enc_u128_fixed(buf, machine_id.0);
            enc_string(buf, name.as_str());
            enc_geometry(buf, screen);
            proof {
                assert(buf@ =~= old(buf)@ + spec_enc_control(m@));
            }
        },
        ControlMessage::DeviceAnnounce(info) => {
            enc_varint(buf, 2);
            enc_device_info(buf, info);
            proof {
                assert(buf@ =~= old(buf)@ + spec_enc_control(m@));
            }
        },
        ControlMessage::DeviceGone { device_id } => {
            enc_varint(buf, 3);
            enc_varint(buf, device_id.0 as u64);
            proof {
                assert(buf@ =~= old(buf)@ + spec_enc_control(m@));
            }
        },
        ControlMessage::ScreenUpdate(screen) => {
            enc_varint(buf, 4);
            enc_geometry(buf, screen);
            proof {
                assert(buf@ =~= old(buf)@ + spec_enc_control(m@));
            }
        },
        ControlMessage::Enter { edge, position } => {
            enc_varint(buf, 5);
            enc_varint(buf, match edge {
                ScreenEdge::Left => 0,
                ScreenEdge::Right => 1,
                ScreenEdge::Top => 2,
                ScreenEdge::Bottom => 3,
            });
            enc_varint(buf, *position as u64);
            proof {
                assert(buf@ =~= old(buf)@ + spec_enc_control(m@));
            }
        },
        ControlMessage::EnterAck => {
            enc_varint(buf, 6);
            proof {
                assert(buf@ =~= old(buf)@ + spec_enc_control(m@));
            }
        },
        ControlMessage::Leave { edge, position } => {
            enc_varint(buf, 7);
            enc_varint(buf, match edge {
                ScreenEdge::Left => 0,
                ScreenEdge::Right => 1,
                ScreenEdge::Top => 2,
                ScreenEdge::Bottom => 3,
            });
            enc_varint(buf, *position as u64);
            proof {
                assert(buf@ =~= old(buf)@ + spec_enc_control(m@));
            }
        },
        ControlMessage::Ping { seq } => {
            enc_varint(buf, 8);
            enc_u64_fixed(buf, *seq);
            proof {
                assert(buf@ =~= old(buf)@ + spec_enc_control(m@));
            }
        },
        ControlMessage::Pong { seq } => {
            enc_varint(buf, 9);
            enc_u64_fixed(buf, *seq);
            proof {
                assert(buf@ =~= old(buf)@ + spec_enc_control(m@));
            }
        },
        ControlMessage::Bye => {
            enc_varint(buf, 10);
            proof {
                assert(buf@ =~= old(buf)@ + spec_enc_control(m@));
            }
        },
    }
}

/// Append an input message.
fn enc_input_message(buf: &mut Vec<u8>, m: &InputMessage)
    ensures
        final(buf)@ == old(buf)@ + spec_enc_input_message(m@),
{
    enc_varint(buf, m.device_id.0 as u64);
    enc_u64_fixed(buf, m.timestamp_us);
    enc_events(buf, &m.events);
    proof {
        assert(buf@ =~= old(buf)@ + spec_enc_input_message(m@));
    }
}

/// Append a clipboard message.
fn enc_clipboard(buf: &mut Vec<u8>, m: &ClipboardMessage)
    ensures
        final(buf)@ == old(buf)@ + spec_enc_clipboard(m@),
{
    match m {
        ClipboardMessage::Offer { formats, size_hint } => {
            enc_varint(buf, 0);
            enc_formats(buf, formats);
            enc_u64_fixed(buf, *size_hint);
            proof {
                assert(buf@ =~= old(buf)@ + spec_enc_clipboard(m@));
            }
        },
        ClipboardMessage::Request { format } => {
            enc_varint(buf, 1);
            enc_varint(buf, match format {
                ClipboardFormat::PlainText => 0,
                ClipboardFormat::Html => 1,
                ClipboardFormat::Png => 2,
            });
            proof {
                assert(buf@ =~= old(buf)@ + spec_enc_clipboard(m@));
            }
        },
        ClipboardMessage::Data(content) => {
            enc_varint(buf, 2);
            enc_varint(buf, match content.format {
                ClipboardFormat::PlainText => 0,
                ClipboardFormat::Html => 1,
                ClipboardFormat::Png => 2,
            });
            enc_bytes(buf, &content.data);
            proof {
                assert(buf@ =~= old(buf)@ + spec_enc_clipboard(m@));
            }
        },
    }
}

/// Encode a message payload, without the length prefix.
pub fn encode_payload(msg: &Message) -> (r: Vec<u8>)
    ensures
        r@ == spec_enc_message(msg@),
{
    let mut buf: Vec<u8> = Vec::new();
    match msg {
        Message::Control(c) => {
            enc_varint(&mut buf, 0);
            enc_control(&mut buf, c);
        },
        Message::Input(im) => {
            enc_varint(&mut buf, 1);
            enc_input_message(&mut buf, im);
        },
        Message::Clipboard(cm) => {
            enc_varint(&mut buf, 2);
            enc_clipboard(&mut buf, cm);
        },
    }
    proof {
        assert(buf@ =~= spec_enc_message(msg@));
    }
    buf
}

/// Encode a message to a length-prefixed byte vector: four big-endian
/// length bytes, then the payload. A payload over the size limit is
/// refused with a serialisation error.
pub fn encode_message(msg: &Message) -> (r: Result<Vec<u8>, ProtocolError>)
    ensures
        r is Ok <==> spec_enc_message(msg@).len() <= MAX_MESSAGE_SIZE,
        r matches Ok(v) ==> v@ == spec_be_len(spec_enc_message(msg@).len() as u32) + spec_enc_message(
            msg@,
        ),
        r matches Err(e) ==> e is Serialization,
        r matches Ok(v) ==> v@.len() == 4 + spec_enc_message(msg@).len(),
{
    let payload = encode_payload(msg);
    if payload.len() > MAX_MESSAGE_SIZE as usize {
        return Err(ProtocolError::Serialization("message too large".to_owned()));
    }
    let len = payload.len() as u32;
    let mut out: Vec<u8> = Vec::new();
    out.push((len / 0x1000000) as u8);
    out.push(((len / 0x10000) % 256) as u8);
    out.push(((len / 256) % 256) as u8);
    out.push((len % 256) as u8);
    let ghost hdr = out@;
    let mut j: usize = 0;
    while j < payload.len()
        invariant
            j <= payload@.len(),
            out@ == hdr + payload@.take(j as int),
        decreases payload@.len() - j,
    {
        out.push(payload[j]);
        proof {
            assert(out@ =~= hdr + payload@.take(j + 1));
        }
        j = j + 1;
    }
    proof {
        assert(payload@.take(payload@.len() as int) =~= payload@);
        assert(hdr =~= spec_be_len(len));
        assert(out@ =~= spec_be_len(spec_enc_message(msg@).len() as u32) + spec_enc_message(
            msg@,
        ));
    }
    Ok(out)
}

/// The four big-endian bytes of a frame length.
pub open spec fn spec_be_len(len: u32) -> Seq<u8> {
    seq![
        (len / 0x1000000) as u8,
        ((len / 0x10000) % 256) as u8,
        ((len / 256) % 256) as u8,
        (len % 256) as u8,
    ]
}

/// Read a frame length from its four big-endian header bytes.
pub fn parse_frame_header(b0: u8, b1: u8, b2: u8, b3: u8) -> (r: u32)
    ensures
        r == b0 as int * 0x1000000 + b1 as int * 0x10000 + b2 as int * 256 + b3 as int,
        spec_be_len(r) == seq![b0, b1, b2, b3],
{
    let r = (b0 as u32) * 0x1000000 + (b1 as u32) * 0x10000 + (b2 as u32) * 256 + (b3 as u32);
    proof {
        let v = r as int;
        let rem1 = b1 as int * 0x10000 + b2 as int * 256 + b3 as int;
        vstd::arithmetic::div_mod::lemma_fundamental_div_mod_converse_div(
            v,
            0x1000000,
            b0 as int,
            rem1,
        );
        vstd::arithmetic::div_mod::lemma_fundamental_div_mod_converse_div(
            v,
            0x10000,
            b0 as int * 256 + b1 as int,
            b2 as int * 256 + b3 as int,
        );
        vstd::arithmetic::div_mod::lemma_fundamental_div_mod_converse_mod(
            b0 as int * 256 + b1 as int,
            256,
            b0 as int,
            b1 as int,
        );
        vstd::arithmetic::div_mod::lemma_fundamental_div_mod_converse_div(
            v,
            256,
            b0 as int * 0x10000 + b1 as int * 256 + b2 as int,
            b3 as int,
        );
        vstd::arithmetic::div_mod::lemma_fundamental_div_mod_converse_mod(
            b0 as int * 0x10000 + b1 as int * 256 + b2 as int,
            256,
            b0 as int * 256 + b1 as int,
            b2 as int,
        );
        vstd::arithmetic::div_mod::lemma_fundamental_div_mod_converse_mod(
            v,
            256,
            b0 as int * 0x10000 + b1 as int * 256 + b2 as int,
            b3 as int,
        );
        assert(spec_be_len(r) =~= seq![b0, b1, b2, b3]);
    }
    r
}

/// Whether a frame length is within the protocol's size limit.
pub fn frame_len_ok(len: u32) -> (r: bool)
    ensures
        r == (len <= MAX_MESSAGE_SIZE),
{
    len <= MAX_MESSAGE_SIZE
}

/// `pow256` is monotone.
proof fn lemma_pow256_mono(a: nat, b: nat)
    requires
        a <= b,
    ensures
        pow256(a) <= pow256(b),
    decreases b,
{
    if a < b {
        lemma_pow256_mono(a, (b - 1) as nat);
        lemma_pow256_pos((b - 1) as nat);
    }
}

/// Decode a variable-length unsigned value.
pub fn dec_varint(b: &Vec<u8>, i: usize) -> (r: Option<(u64, usize)>)
    ensures
        r is Some <==> spec_dec_varint(b@, i as int) is Some,
        r matches Some((v, j)) ==> spec_dec_varint(b@, i as int) == Some((v, j as int)),
{
    if i >= b.len() {
        return None;
    }
    let m = b[i];
    if m < 251 {
        Some((m as u64, i + 1))
    } else if m == 251 {
        if b.len() - i >= 3 {
            let v = dec_le(b, i + 1, 2);
            Some((v, i + 3))
        } else {
            None
        }
    } else if m == 252 {
        if b.len() - i >= 5 {
            let v = dec_le(b, i + 1, 4);
            Some((v, i + 5))
        } else {
            None
        }
    } else if m == 253 {
        if b.len() - i >= 9 {
            let v = dec_le(b, i + 1, 8);
            Some((v, i + 9))
        } else {
            None
        }
    } else {
        None
    }
}

/// Read `k` little-endian bytes (at most eight) as an unsigned value.
fn dec_le(b: &Vec<u8>, i: usize, k: usize) -> (r: u64)
    requires
        k <= 8,
        i + k <= b@.len(),
    ensures
        r as int == spec_from_le(b@.subrange(i as int, i + k)),
{
    let blen = b.len();
    let ghost sub = b@.subrange(i as int, i + k);
    let mut v: u128 = 0;
    let mut t: usize = k;
    while t > 0
        invariant
            t <= k <= 8,
            i + k <= usize::MAX,
            i + k <= b@.len(),
            sub == b@.subrange(i as int, i + k),
            v as int == spec_from_le(sub.skip(t as int)),
            (v as int) < pow256((k - t) as nat),
        decreases t,
    {
        proof {
            lemma_pow256_wide();
            lemma_pow256_mono((k - t) as nat, 7);
            assert((v as int) * 256 + 255 < pow256(8));
            assert(sub.skip(t - 1).drop_first() =~= sub.skip(t as int));
            assert(sub.skip(t - 1)[0] == sub[t - 1]);
            assert(sub[t - 1] == b@[i + t - 1]);
            lemma_pow256_pos((k - t) as nat);
        }
        v = v * 256 + (b[i + t - 1] as u128);
        proof {
            assert(v as int == spec_from_le(sub.skip(t - 1)));
            lemma_from_le_bound(sub.skip(t - 1));
            assert(sub.skip(t - 1).len() == k - t + 1);
            lemma_pow256_mono((k - t + 1) as nat, 8);
        }
        t = t - 1;
    }
    proof {
        assert(sub.skip(0) =~= sub);
        lemma_pow256_wide();
        lemma_pow256_mono(k as nat, 8);
        lemma_from_le_bound(sub);
    }
    v as u64
}

/// Read sixteen little-endian bytes as an unsigned 128-bit value.
fn dec_le16(b: &Vec<u8>, i: usize) -> (r: u128)
    requires
        i + 16 <= b@.len(),
    ensures
        r as int == spec_from_le(b@.subrange(i as int, i + 16)),
{
    let blen = b.len();
    let ghost sub = b@.subrange(i as int, i + 16);
    let mut v: u128 = 0;
    let mut t: usize = 16;
    while t > 0
        invariant
            t <= 16,
            i + 16 <= usize::MAX,
            i + 16 <= b@.len(),
            sub == b@.subrange(i as int, i + 16),
            v as int == spec_from_le(sub.skip(t as int)),
            (v as int) < pow256((16 - t) as nat),
        decreases t,
    {
        proof {
            lemma_pow256_wide();
            lemma_pow256_mono((16 - t) as nat, 15);
            assert((v as int) * 256 + 255 < pow256(16));
            assert(sub.skip(t - 1).drop_first() =~= sub.skip(t as int));
            assert(sub.skip(t - 1)[0] == sub[t - 1]);
            assert(sub[t - 1] == b@[i + t - 1]);
            lemma_pow256_pos((16 - t) as nat);
        }
        v = v * 256 + (b[i + t - 1] as u128);
        proof {
            assert(v as int == spec_from_le(sub.skip(t - 1)));
            lemma_from_le_bound(sub.skip(t - 1));
            assert(sub.skip(t - 1).len() == 16 - t + 1);
            lemma_pow256_mono((16 - t + 1) as nat, 16);
        }
        t = t - 1;
    }
    proof {
        assert(sub.skip(0) =~= sub);
        lemma_pow256_wide();
        lemma_from_le_bound(sub);
    }
    v
}

/// Decode an unsigned 32-bit value.
fn dec_u32(b: &Vec<u8>, i: usize) -> (r: Option<(u32, usize)>)
    ensures
        r is Some <==> spec_dec_u32(b@, i as int) is Some,
        r matches Some((v, j)) ==> spec_dec_u32(b@, i as int) == Some((v, j as int)),
{
    match dec_varint(b, i) {
        Some((n, j)) => if n <= 0xFFFF_FFFF {
            Some((n as u32, j))
        } else {
            None
        },
        None => None,
    }
}

/// Decode an unsigned 16-bit value.
fn dec_u16(b: &Vec<u8>, i: usize) -> (r: Option<(u16, usize)>)
    ensures
        r is Some <==> spec_dec_u16(b@, i as int) is Some,
        r matches Some((v, j)) ==> spec_dec_u16(b@, i as int) == Some((v, j as int)),
{
    match dec_varint(b, i) {
        Some((n, j)) => if n <= 0xFFFF {
            Some((n as u16, j))
        } else {
            None
        },
        None => None,
    }
}

/// Decode a zigzag-folded signed 32-bit value.
fn dec_i32(b: &Vec<u8>, i: usize) -> (r: Option<(i32, usize)>)
    ensures
        r is Some <==> spec_dec_i32(b@, i as int) is Some,
        r matches Some((v, j)) ==> spec_dec_i32(b@, i as int) == Some((v, j as int)),
{
    match dec_varint(b, i) {
        Some((n, j)) => if n <= 0xFFFF_FFFF {
            let v: i32 = if n % 2 == 0 {
                (n / 2) as i32
            } else {
                let q: i64 = ((n + 1) / 2) as i64;
                (-q) as i32
            };
            proof {
                assert(v as int == spec_unzigzag(n as int));
            }
            Some((v, j))
        } else {
            None
        },
        None => None,
    }
}

/// Decode a fixed eight-byte 64-bit value.
fn dec_u64_fixed(b: &Vec<u8>, i: usize) -> (r: Option<(u64, usize)>)
    ensures
        r is Some <==> spec_dec_u64_fixed(b@, i as int) is Some,
        r matches Some((v, j)) ==> spec_dec_u64_fixed(b@, i as int) == Some((v, j as int)),
{
    if i <= b.len() && b.len() - i >= 8 {
        let v = dec_le(b, i, 8);
        Some((v, i + 8))
    } else {
        None
    }
}

/// Decode a fixed sixteen-byte 128-bit value.
fn dec_u128_fixed(b: &Vec<u8>, i: usize) -> (r: Option<(u128, usize)>)
    ensures
        r is Some <==> spec_dec_u128_fixed(b@, i as int) is Some,
        r matches Some((v, j)) ==> spec_dec_u128_fixed(b@, i as int) == Some((v, j as int)),
{
    if i <= b.len() && b.len() - i >= 16 {
        let v = dec_le16(b, i);
        Some((v, i + 16))
    } else {
        None
    }
}

/// Decode a screen edge.
fn dec_edge(b: &Vec<u8>, i: usize) -> (r: Option<(ScreenEdge, usize)>)
    ensures
        r is Some <==> spec_dec_edge(b@, i as int) is Some,
        r matches Some((v, j)) ==> spec_dec_edge(b@, i as int) == Some((v, j as int)),
{
    match dec_varint(b, i) {
        Some((n, j)) => if n == 0 {
            Some((ScreenEdge::Left, j))
        } else if n == 1 {
            Some((ScreenEdge::Right, j))
        } else if n == 2 {
            Some((ScreenEdge::Top, j))
        } else if n == 3 {
            Some((ScreenEdge::Bottom, j))
        } else {
            None
        },
        None => None,
    }
}

/// Decode a mouse button.
fn dec_mouse_button(b: &Vec<u8>, i: usize) -> (r: Option<(MouseButton, usize)>)
    ensures
        r is Some <==> spec_dec_mouse_button(b@, i as int) is Some,
        r matches Some((v, j)) ==> spec_dec_mouse_button(b@, i as int) == Some((v, j as int)),
{
    match dec_varint(b, i) {
        Some((n, j)) => if n == 0 {
            Some((MouseButton::Left, j))
        } else if n == 1 {
            Some((MouseButton::Right, j))
        } else if n == 2 {
            Some((MouseButton::Middle, j))
        } else if n == 3 {
            Some((MouseButton::Back, j))
        } else if n == 4 {
            Some((MouseButton::Forward, j))
        } else if n == 5 {
            match dec_varint(b, j) {
                Some((c, j2)) => if c <= 0xFFFF {
                    Some((MouseButton::Other(c as u16), j2))
                } else {
                    None
                },
                None => None,
            }
        } else {
            None
        },
        None => None,
    }
}

/// Decode a key code.
fn dec_keycode(b: &Vec<u8>, i: usize) -> (r: Option<(KeyCode, usize)>)
    ensures
        r is Some <==> spec_dec_keycode(b@, i as int) is Some,
        r matches Some((v, j)) ==> spec_dec_keycode(b@, i as int) == Some((v, j as int)),
{
    match dec_varint(b, i) {
        Some((n, j)) => if n == 106 {
            match dec_varint(b, j) {
                Some((raw, j2)) => if raw <= 0xFFFF_FFFF {
                    Some((KeyCode::Unknown(raw as u32), j2))
                } else {
                    None
                },
                None => None,
            }
        } else {
            match keycode_from_ord(n) {
                Some(k) => Some((k, j)),
                None => None,
            }
        },
        None => None,
    }
}

/// Decode one input event.
#[verifier::rlimit(100)]
#[verifier::spinoff_prover]
fn dec_event(b: &Vec<u8>, i: usize) -> (r: Option<(InputEvent, usize)>)
    ensures
        r is Some <==> spec_dec_event(b@, i as int) is Some,
        r matches Some((v, j)) ==> spec_dec_event(b@, i as int) == Some((v, j as int)),
{
    match dec_varint(b, i) {
        Some((n, j)) => if n == 0 {
            match dec_keycode(b, j) {
                Some((code, j2)) => match dec_varint(b, j2) {
                    Some((so, j3)) => if so == 0 {
                        Some((InputEvent::Key { code, state: ButtonState::Pressed }, j3))
                    } else if so == 1 {
                        Some((InputEvent::Key { code, state: ButtonState::Released }, j3))
                    } else {
                        None
                    },
                    None => None,
                },
                None => None,
            }
        } else if n == 1 {
            match dec_i32(b, j) {
                Some((dx, j2)) => match dec_i32(b, j2) {
                    Some((dy, j3)) => Some((InputEvent::MouseMove { dx, dy }, j3)),
                    None => None,
                },
                None => None,
            }
        } else if n == 2 {
            match dec_u64_fixed(b, j) {
                Some((x_bits, j2)) => match dec_u64_fixed(b, j2) {
                    Some((y_bits, j3)) => Some(
                        (InputEvent::MouseMoveAbsolute { x_bits, y_bits }, j3),
                    ),
                    None => None,
                },
                None => None,
            }
        } else if n == 3 {
            match dec_mouse_button(b, j) {
                Some((button, j2)) => match dec_varint(b, j2) {
                    Some((so, j3)) => if so == 0 {
                        Some((InputEvent::MouseButton { button, state: ButtonState::Pressed }, j3))
                    } else if so == 1 {
                        Some(
                            (InputEvent::MouseButton { button, state: ButtonState::Released }, j3),
                        )
                    } else {
                        None
                    },
                    None => None,
                },
                None => None,
            }
        } else if n == 4 {
            match dec_varint(b, j) {
                Some((ao, j2)) => if ao <= 1 {
                    let axis = if ao == 0 {
                        ScrollAxis::Vertical
                    } else {
                        ScrollAxis::Horizontal
                    };
                    match dec_varint(b, j2) {
                        Some((dor, j3)) => if dor <= 1 {
                            let direction = if dor == 0 {
                                ScrollDirection::Positive
                            } else {
                                ScrollDirection::Negative
                            };
                            match dec_u64_fixed(b, j3) {
                                Some((amount_bits, j4)) => Some(
                                    (InputEvent::Scroll { axis, direction, amount_bits }, j4),
                                ),
                                None => None,
                            }
                        } else {
                            None
                        },
                        None => None,
                    }
                } else {
                    None
                },
                None => None,
            }
        } else {
            None
        },
        None => None,
    }
}

/// Decode an event batch.
fn dec_events(b: &Vec<u8>, i: usize) -> (r: Option<(Vec<InputEvent>, usize)>)
    ensures
        r is Some <==> spec_dec_events(b@, i as int) is Some,
        r matches Some((v, j)) ==> spec_dec_events(b@, i as int) == Some((v@, j as int)),
{
    match dec_varint(b, i) {
        Some((n, j0)) => {
            let mut acc: Vec<InputEvent> = Vec::new();
            let mut cur: usize = j0;
            let mut t: u64 = 0;
            while t < n
                invariant
                    t <= n,
                    spec_dec_varint(b@, i as int) == Some((n, j0 as int)),
                    spec_dec_event_list(b@, j0 as int, n as nat) == (match spec_dec_event_list(
                        b@,
                        cur as int,
                        (n - t) as nat,
                    ) {
                        Some((rest, end)) => Some((acc@ + rest, end)),
                        None => None::<(Seq<InputEvent>, int)>,
                    }),
                decreases n - t,
            {
                match dec_event(b, cur) {
                    Some((ev, j2)) => {
                        let ghost preacc = acc@;
                        acc.push(ev);
                        proof {
                            match spec_dec_event_list(b@, j2 as int, (n - t - 1) as nat) {
                                Some((rest2, end2)) => {
                                    assert(preacc + (seq![ev] + rest2) =~= acc@ + rest2);
                                },
                                None => {},
                            }
                        }
                        cur = j2;
                        t = t + 1;
                    },
                    None => {
                        return None;
                    },
                }
            }
            proof {
                assert(acc@ + Seq::<InputEvent>::empty() =~= acc@);
            }
            Some((acc, cur))
        },
        None => None,
    }
}

/// Decode a byte array.
fn dec_bytes(b: &Vec<u8>, i: usize) -> (r: Option<(Vec<u8>, usize)>)
    ensures
        r is Some <==> spec_dec_bytes(b@, i as int) is Some,
        r matches Some((v, j)) ==> spec_dec_bytes(b@, i as int) == Some((v@, j as int)),
{
    match dec_varint(b, i) {
        Some((n, j)) => {
            let blen = b.len();
            if n <= (blen as u64) && j <= blen - (n as usize) {
                let sl = slice_subrange(b.as_slice(), j, j + (n as usize));
                let v = vstd::slice::slice_to_vec(sl);
                Some((v, j + (n as usize)))
            } else {
                None
            }
        },
        None => None,
    }
}

/// Decode a string.
fn dec_string(b: &Vec<u8>, i: usize) -> (r: Option<(String, usize)>)
    ensures
        r is Some <==> spec_dec_string(b@, i as int) is Some,
        r matches Some((v, j)) ==> spec_dec_string(b@, i as int) == Some((v@, j as int)),
{
    match dec_bytes(b, i) {
        Some((d, j)) => {
            match utf8_from_bytes(d.as_slice()) {
                Some(sv) => {
                    let owned = sv.to_owned();
                    proof {
                        vstd::utf8::encode_utf8_decode_utf8(owned@);
                    }
                    Some((owned, j))
                },
                None => None,
            }
        },
        None => None,
    }
}

/// Decode a capability set.
fn dec_caps(b: &Vec<u8>, i: usize) -> (r: Option<(Vec<DeviceCapability>, usize)>)
    ensures
        r is Some <==> spec_dec_caps(b@, i as int) is Some,
        r matches Some((v, j)) ==> spec_dec_caps(b@, i as int) == Some((v@, j as int)),
{
    match dec_varint(b, i) {
        Some((n, j0)) => {
            let mut acc: Vec<DeviceCapability> = Vec::new();
            let mut cur: usize = j0;
            let mut t: u64 = 0;
            while t < n
                invariant
                    t <= n,
                    spec_dec_varint(b@, i as int) == Some((n, j0 as int)),
                    spec_dec_cap_list(b@, j0 as int, n as nat) == (match spec_dec_cap_list(
                        b@,
                        cur as int,
                        (n - t) as nat,
                    ) {
                        Some((rest, end)) => Some((acc@ + rest, end)),
                        None => None::<(Seq<DeviceCapability>, int)>,
                    }),
                decreases n - t,
            {
                match dec_varint(b, cur) {
                    Some((o, j2)) => {
                        let c: DeviceCapability = if o == 0 {
                            DeviceCapability::Keyboard
                        } else if o == 1 {
                            DeviceCapability::RelativeMouse
                        } else if o == 2 {
                            DeviceCapability::AbsoluteMouse
                        } else if o == 3 {
                            DeviceCapability::Scroll
                        } else {
                            return None;
                        };
                        let ghost preacc = acc@;
                        acc.push(c);
                        proof {
                            match spec_dec_cap_list(b@, j2 as int, (n - t - 1) as nat) {
                                Some((rest2, end2)) => {
                                    assert(preacc + (seq![c] + rest2) =~= acc@ + rest2);
                                },
                                None => {},
                            }
                        }
                        cur = j2;
                        t = t + 1;
                    },
                    None => {
                        return None;
                    },
                }
            }
            proof {
                assert(acc@ + Seq::<DeviceCapability>::empty() =~= acc@);
            }
            Some((acc, cur))
        },
        None => None,
    }
}

/// Decode a format set.
fn dec_formats(b: &Vec<u8>, i: usize) -> (r: Option<(Vec<ClipboardFormat>, usize)>)
    ensures
        r is Some <==> spec_dec_formats(b@, i as int) is Some,
        r matches Some((v, j)) ==> spec_dec_formats(b@, i as int) == Some((v@, j as int)),
{
    match dec_varint(b, i) {
        Some((n, j0)) => {
            let mut acc: Vec<ClipboardFormat> = Vec::new();
            let mut cur: usize = j0;
            let mut t: u64 = 0;
            while t < n
                invariant
                    t <= n,
                    spec_dec_varint(b@, i as int) == Some((n, j0 as int)),
                    spec_dec_format_list(b@, j0 as int, n as nat) == (match spec_dec_format_list(
                        b@,
                        cur as int,
                        (n - t) as nat,
                    ) {
                        Some((rest, end)) => Some((acc@ + rest, end)),
                        None => None::<(Seq<ClipboardFormat>, int)>,
                    }),
                decreases n - t,
            {
                match dec_varint(b, cur) {
                    Some((o, j2)) => {
                        let c: ClipboardFormat = if o == 0 {
                            ClipboardFormat::PlainText
                        } else if o == 1 {
                            ClipboardFormat::Html
                        } else if o == 2 {
                            ClipboardFormat::Png
                        } else {
                            return None;
                        };
                        let ghost preacc = acc@;
                        acc.push(c);
                        proof {
                            match spec_dec_format_list(b@, j2 as int, (n - t - 1) as nat) {
                                Some((rest2, end2)) => {
                                    assert(preacc + (seq![c] + rest2) =~= acc@ + rest2);
                                },
                                None => {},
                            }
                        }
                        cur = j2;
                        t = t + 1;
                    },
                    None => {
                        return None;
                    },
                }
            }
            proof {
                assert(acc@ + Seq::<ClipboardFormat>::empty() =~= acc@);
            }
            Some((acc, cur))
        },
        None => None,
    }
}

/// Decode a screen geometry.
fn dec_geometry(b: &Vec<u8>, i: usize) -> (r: Option<(ScreenGeometry, usize)>)
    ensures
        r is Some <==> spec_dec_geometry(b@, i as int) is Some,
        r matches Some((v, j)) ==> spec_dec_geometry(b@, i as int) == Some((v, j as int)),
{
    match dec_u32(b, i) {
        Some((width, j)) => match dec_u32(b, j) {
            Some((height, j2)) => match dec_i32(b, j2) {
                Some((x, j3)) => match dec_i32(b, j3) {
                    Some((y, j4)) => Some((ScreenGeometry { width, height, x, y }, j4)),
                    None => None,
                },
                None => None,
            },
            None => None,
        },
        None => None,
    }
}

/// Decode a protocol version.
fn dec_version(b: &Vec<u8>, i: usize) -> (r: Option<(ProtocolVersion, usize)>)
    ensures
        r is Some <==> spec_dec_version(b@, i as int) is Some,
        r matches Some((v, j)) ==> spec_dec_version(b@, i as int) == Some((v, j as int)),
{
    match dec_u16(b, i) {
        Some((major, j)) => match dec_u16(b, j) {
            Some((minor, j2)) => Some((ProtocolVersion { major, minor }, j2)),
            None => None,
        },
        None => None,
    }
}

/// Decode a device description.
fn dec_device_info(b: &Vec<u8>, i: usize) -> (r: Option<(DeviceInfo, usize)>)
    ensures
        r is Some <==> spec_dec_device_info(b@, i as int) is Some,
        r matches Some((v, j)) ==> spec_dec_device_info(b@, i as int) == Some((v@, j as int)),
{
    match dec_u32(b, i) {
        Some((id, j)) => match dec_string(b, j) {
            Some((name, j2)) => match dec_caps(b, j2) {
                Some((capabilities, j3)) => Some(
                    (DeviceInfo { id: DeviceId(id), name, capabilities }, j3),
                ),
                None => None,
            },
            None => None,
        },
        None => None,
    }
}

/// Decode an input message.
fn dec_input_message(b: &Vec<u8>, i: usize) -> (r: Option<(InputMessage, usize)>)
    ensures
        r is Some <==> spec_dec_input_message(b@, i as int) is Some,
        r matches Some((v, j)) ==> spec_dec_input_message(b@, i as int) == Some((v@, j as int)),
{
    match dec_u32(b, i) {
        Some((id, j)) => match dec_u64_fixed(b, j) {
            Some((timestamp_us, j2)) => match dec_events(b, j2) {
                Some((events, j3)) => Some(
                    (InputMessage { device_id: DeviceId(id), timestamp_us, events }, j3),
                ),
                None => None,
            },
            None => None,
        },
        None => None,
    }
}

/// Decode a control message.
#[verifier::rlimit(100)]
#[verifier::spinoff_prover]
fn dec_control(b: &Vec<u8>, i: usize) -> (r: Option<(ControlMessage, usize)>)
    ensures
        r is Some <==> spec_dec_control(b@, i as int) is Some,
        r matches Some((v, j)) ==> spec_dec_control(b@, i as int) == Some((v@, j as int)),
{
    match dec_varint(b, i) {
        Some((n, j)) => if n == 0 || n == 1 {
            match dec_version(b, j) {
                Some((version, j2)) => match dec_u128_fixed(b, j2) {
                    Some((mid, j3)) => match dec_string(b, j3) {
                        Some((name, j4)) => match dec_geometry(b, j4) {
                            Some((screen, j5)) => if n == 0 {
                                Some(
                                    (
                                        ControlMessage::Hello {
                                            version,
                                            machine_id: MachineId(mid),
                                            name,
                                            screen,
                                        },
                                        j5,
                                    ),
                                )
                            } else {
                                Some(
                                    (
                                        ControlMessage::Welcome {
                                            version,
                                            machine_id: MachineId(mid),
                                            name,
                                            screen,
                                        },
                                        j5,
                                    ),
                                )
                            },
                            None => None,
                        },
                        None => None,
                    },
                    None => None,
                },
                None => None,
            }
        } else if n == 2 {
            match dec_device_info(b, j) {
                Some((info, j2)) => Some((ControlMessage::DeviceAnnounce(info), j2)),
                None => None,
            }
        } else if n == 3 {
            match dec_u32(b, j) {
                Some((id, j2)) => Some((ControlMessage::DeviceGone { device_id: DeviceId(id) }, j2)),
                None => None,
            }
        } else if n == 4 {
            match dec_geometry(b, j) {
                Some((screen, j2)) => Some((ControlMessage::ScreenUpdate(screen), j2)),
                None => None,
            }
        } else if n == 5 || n == 7 {
            match dec_edge(b, j) {
                Some((edge, j2)) => match dec_u32(b, j2) {
                    Some((position, j3)) => if n == 5 {
                        Some((ControlMessage::Enter { edge, position }, j3))
                    } else {
                        Some((ControlMessage::Leave { edge, position }, j3))
                    },
                    None => None,
                },
                None => None,
            }
        } else if n == 6 {
            Some((ControlMessage::EnterAck, j))
        } else if n == 8 || n == 9 {
            match dec_u64_fixed(b, j) {
                Some((seq, j2)) => if n == 8 {
                    Some((ControlMessage::Ping { seq }, j2))
                } else {
                    Some((ControlMessage::Pong { seq }, j2))
                },
                None => None,
            }
        } else if n == 10 {
            Some((ControlMessage::Bye, j))
        } else {
            None
        },
        None => None,
    }
}

/// Decode a clipboard message.
fn dec_clipboard(b: &Vec<u8>, i: usize) -> (r: Option<(ClipboardMessage, usize)>)
    ensures
        r is Some <==> spec_dec_clipboard(b@, i as int) is Some,
        r matches Some((v, j)) ==> spec_dec_clipboard(b@, i as int) == Some((v@, j as int)),
{
    match dec_varint(b, i) {
        Some((n, j)) => if n == 0 {
            match dec_formats(b, j) {
                Some((formats, j2)) => match dec_u64_fixed(b, j2) {
                    Some((size_hint, j3)) => Some(
                        (ClipboardMessage::Offer { formats, size_hint }, j3),
                    ),
                    None => None,
                },
                None => None,
            }
        } else if n == 1 {
            match dec_varint(b, j) {
                Some((fo, j2)) => if fo == 0 {
                    Some((ClipboardMessage::Request { format: ClipboardFormat::PlainText }, j2))
                } else if fo == 1 {
                    Some((ClipboardMessage::Request { format: ClipboardFormat::Html }, j2))
                } else if fo == 2 {
                    Some((ClipboardMessage::Request { format: ClipboardFormat::Png }, j2))
                } else {
                    None
                },
                None => None,
            }
        } else if n == 2 {
            match dec_varint(b, j) {
                Some((fo, j2)) => {
                    let format: ClipboardFormat = if fo == 0 {
                        ClipboardFormat::PlainText
                    } else if fo == 1 {
                        ClipboardFormat::Html
                    } else if fo == 2 {
                        ClipboardFormat::Png
                    } else {
                        return None;
                    };
                    match dec_bytes(b, j2) {
                        Some((data, j3)) => Some(
                            (ClipboardMessage::Data(ClipboardContent { format, data }), j3),
                        ),
                        None => None,
                    }
                },
                None => None,
            }
        } else {
            None
        },
        None => None,
    }
}

/// Decode a message from a payload, without the length prefix. Trailing
/// bytes after the message are tolerated. A payload that does not parse is
/// a deserialisation error.
pub fn decode_message(payload: &Vec<u8>) -> (r: Result<Message, ProtocolError>)
    ensures
        r is Ok <==> spec_dec_message(payload@, 0) is Some,
        r matches Ok(m) ==> (spec_dec_message(payload@, 0) matches Some((mv, _)) && m@ == mv),
        r matches Err(e) ==> e is Deserialization,
{
    match dec_varint(payload, 0) {
        Some((n, j)) => if n == 0 {
            match dec_control(payload, j) {
                Some((c, _)) => Ok(Message::Control(c)),
                None => Err(ProtocolError::Deserialization("malformed frame".to_owned())),
            }
        } else if n == 1 {
            match dec_input_message(payload, j) {
                Some((im, _)) => Ok(Message::Input(im)),
                None => Err(ProtocolError::Deserialization("malformed frame".to_owned())),
            }
        } else if n == 2 {
            match dec_clipboard(payload, j) {
                Some((cm, _)) => Ok(Message::Clipboard(cm)),
                None => Err(ProtocolError::Deserialization("malformed frame".to_owned())),
            }
        } else {
            Err(ProtocolError::Deserialization("malformed frame".to_owned()))
        },
        None => Err(ProtocolError::Deserialization("malformed frame".to_owned())),
    }
}

} // verus!
