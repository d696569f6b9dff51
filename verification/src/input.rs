//! Controller input: the D-pad as direction axes.
//!
//! The games read the two axes of a joystick state for directions, but not the D-pad's
//! angle. The angle is converted into axis values. A cardinal direction zeroes the
//! perpendicular axis, to account for stick drift; a diagonal sets both; a centered D-pad
//! leaves the state alone.

use crate::bytes;
use crate::bytes::{cast_signed, cast_unsigned, read_u32, write_u32};
use crate::d3d;
use crate::d3d::{is_ok, HResult};
use crate::dinput8::set_on_created;
use crate::nonzero::NonZeroUsize;
use crate::once::FirstWins;
use vstd::prelude::*;

verus! {

/// The two sizes of a joystick state.
pub const DIJOYSTATE_SIZE: u32 = 80;

pub const DIJOYSTATE2_SIZE: u32 = 272;

/// Where the axes and the first D-pad angle stand, in either state.
pub const LX_OFFSET: usize = 0;

pub const LY_OFFSET: usize = 4;

pub const POV0_OFFSET: usize = 32;

/// A full revolution in hundredths of a degree. Drivers report various values past it for
/// a centered D-pad.
pub const POV_FULL_REVOLUTION: u32 = 36000;

/// The vtable slots that are patched, the same in the ANSI and the wide interfaces.
pub const CREATE_DEVICE_SLOT: usize = 3;

pub const GET_DEVICE_STATE_SLOT: usize = 9;

/// Whether the D-pad is held.
pub open spec fn pov_held(pov: u32) -> bool {
    pov < POV_FULL_REVOLUTION
}

/// The axis values of a D-pad angle: the negative end for left and up, the positive for
/// right and down. On a diagonal both axes are at an end.
pub open spec fn pov_axes(pov: u32, lx: i32, ly: i32) -> (i32, i32) {
    if !pov_held(pov) {
        (lx, ly)
    } else {
        (
            if 22500 <= pov <= 31500 {
                i32::MIN
            } else if 4500 <= pov <= 13500 {
                i32::MAX
            } else {
                0
            },
            if pov <= 4500 || pov >= 31500 {
                i32::MIN
            } else if 13500 <= pov <= 22500 {
                i32::MAX
            } else {
                0
            },
        )
    }
}

/// Converts a D-pad angle in hundredths of a degree, clockwise from up, into axis values.
/// A centered D-pad passes the axes through.
pub fn convert_pov(pov: u32, lx: i32, ly: i32) -> (axes: (i32, i32))
    ensures
        axes == pov_axes(pov, lx, ly),
{
    if pov >= POV_FULL_REVOLUTION {
        return (lx, ly);
    }
    let up = pov <= 4500 || pov >= 31500;
    let right = 4500 <= pov && pov <= 13500;
    let down = 13500 <= pov && pov <= 22500;
    let left = 22500 <= pov && pov <= 31500;
    let new_lx: i32 = if left {
        i32::MIN
    } else if right {
        i32::MAX
    } else {
        0
    };
    let new_ly: i32 = if up {
        i32::MIN
    } else if down {
        i32::MAX
    } else {
        0
    };
    (new_lx, new_ly)
}

/// A held D-pad always gives a direction, whatever the stick says: at least one axis is at
/// an end, and turning it by half a revolution turns both axes around.
pub proof fn lemma_pov_directions(pov: u32, lx: i32, ly: i32)
    requires
        pov_held(pov),
    ensures
        ({
            let (x, y) = pov_axes(pov, lx, ly);
            let opposite = ((pov + 18000) % 36000) as u32;
            let (u, v) = pov_axes(opposite, lx, ly);
            &&& x != 0 || y != 0
            &&& pov_axes(pov, 0, 0) == (x, y)
            &&& (x == i32::MIN) == (u == i32::MAX) && (x == i32::MAX) == (u == i32::MIN)
            &&& (y == i32::MIN) == (v == i32::MAX) && (y == i32::MAX) == (v == i32::MIN)
        }),
{
}

/// A joystick state with its D-pad converted.
pub open spec fn converted_state(state: Seq<u8>) -> Seq<u8> {
    let axes = pov_axes(
        bytes::u32_at(state, POV0_OFFSET as int),
        bytes::as_signed(bytes::u32_at(state, LX_OFFSET as int)),
        bytes::as_signed(bytes::u32_at(state, LY_OFFSET as int)),
    );
    bytes::spliced(
        bytes::spliced(state, LX_OFFSET as int, bytes::le32(bytes::as_unsigned(axes.0))),
        LY_OFFSET as int,
        bytes::le32(bytes::as_unsigned(axes.1)),
    )
}

/// Converts the D-pad of a joystick state in place. A state of any other size is left
/// untouched.
pub fn convert_pov_in_state(state: &mut Vec<u8>)
    ensures
        final(state)@ == (if old(state)@.len() == DIJOYSTATE_SIZE || old(state)@.len()
            == DIJOYSTATE2_SIZE {
            converted_state(old(state)@)
        } else {
            old(state)@
        }),
{
    let n: usize = state.len();
    if n != DIJOYSTATE_SIZE as usize && n != DIJOYSTATE2_SIZE as usize {
        return;
    }
    let pov = read_u32(state.as_slice(), POV0_OFFSET);
    let lx = read_u32(state.as_slice(), LX_OFFSET);
    let ly = read_u32(state.as_slice(), LY_OFFSET);
    if let (Some(pov), Some(lx), Some(ly)) = (pov, lx, ly) {
        let (new_lx, new_ly): (i32, i32) = convert_pov(pov, cast_signed(lx), cast_signed(ly));
        write_u32(state, LX_OFFSET, cast_unsigned(new_lx));
        write_u32(state, LY_OFFSET, cast_unsigned(new_ly));
    }
}

/// Nothing but the two axes of a state changes, and with a centered D-pad nothing at all.
pub proof fn lemma_state_conversion(state: Seq<u8>, i: int)
    requires
        state.len() == DIJOYSTATE_SIZE || state.len() == DIJOYSTATE2_SIZE,
        0 <= i < state.len(),
    ensures
        converted_state(state).len() == state.len(),
        i >= 8 ==> converted_state(state)[i] == state[i],
        !pov_held(bytes::u32_at(state, POV0_OFFSET as int)) ==> converted_state(state) == state,
{
    if !pov_held(bytes::u32_at(state, POV0_OFFSET as int)) {
        let (x, y) = (bytes::u32_at(state, 0), bytes::u32_at(state, 4));
        bytes::lemma_read_back(x, 0);
        bytes::lemma_read_back(y, 0);
        assert(bytes::u32_at(state.subrange(0, 4), 0) == x);
        assert(bytes::u32_at(state.subrange(4, 8), 0) == y);
        bytes::lemma_write_back(state.subrange(0, 4));
        bytes::lemma_write_back(state.subrange(4, 8));
        assert(bytes::le32(x) =~= state.subrange(0, 4));
        assert(bytes::le32(y) =~= state.subrange(4, 8));
        assert(converted_state(state) =~= state);
    }
}

/// Registers the callback that patches new interfaces with the proxy; the first caller
/// wins. This must come before the game creates its interface.
pub fn install<F: Copy>(on_created: &mut FirstWins<F>, f: F)
    ensures
        final(on_created).value() == (match old(on_created).value() {
            Some(first) => Some(first),
            None => Some(f),
        }),
{
    set_on_created(on_created, f);
}

/// The device whose vtable is patched after a creation that returned `hr` and wrote
/// `device`, where the caller gave a place for it.
pub fn created_device(hr: HResult, device: Option<usize>) -> (res: Option<NonZeroUsize>)
    ensures
        match res {
            Some(d) => d3d::succeeded(hr) && device == Some(d@),
            None => !d3d::succeeded(hr) || device is None || device == Some(0usize),
        },
{
    if !is_ok(hr) {
        return None;
    }
    match device {
        Some(d) => NonZeroUsize::new(d),
        None => None,
    }
}

/// Finishes a read of the device state that returned `hr`: what a successful read filled
/// is converted.
pub fn hook_get_device_state(hr: HResult, state: &mut Vec<u8>) -> (res: HResult)
    ensures
        res == hr,
        final(state)@ == (if d3d::succeeded(hr) && (old(state)@.len() == DIJOYSTATE_SIZE || old(
            state,
        )@.len() == DIJOYSTATE2_SIZE) {
            converted_state(old(state)@)
        } else {
            old(state)@
        }),
{
    if is_ok(hr) {
        convert_pov_in_state(state);
    }
    hr
}

/// The four cardinal directions with half an octant to either side, and the diagonals
/// between them, both ends included: up and left are the negative ends, down and right the
/// positive ones. What is past a revolution leaves the stick alone.
pub proof fn lemma_pov_octants(pov: u32, lx: i32, ly: i32)
    ensures
        pov >= 36000 ==> pov_axes(pov, lx, ly) == (lx, ly),
        pov < 4500 || 31500 < pov < 36000 ==> pov_axes(pov, lx, ly) == (0i32, i32::MIN),
        pov == 4500 ==> pov_axes(pov, lx, ly) == (i32::MAX, i32::MIN),
        4500 < pov < 13500 ==> pov_axes(pov, lx, ly) == (i32::MAX, 0i32),
        pov == 13500 ==> pov_axes(pov, lx, ly) == (i32::MAX, i32::MAX),
        13500 < pov < 22500 ==> pov_axes(pov, lx, ly) == (0i32, i32::MAX),
        pov == 22500 ==> pov_axes(pov, lx, ly) == (i32::MIN, i32::MAX),
        22500 < pov < 31500 ==> pov_axes(pov, lx, ly) == (i32::MIN, 0i32),
        pov == 31500 ==> pov_axes(pov, lx, ly) == (i32::MIN, i32::MIN),
        pov_held(pov) <==> pov < 36000,
{
}

/// A converted state has the axes of its D-pad: the angle is read at byte 32, the horizontal
/// axis is at byte 0 and the vertical one at byte 4.
pub proof fn lemma_converted_axes(state: Seq<u8>)
    requires
        state.len() == 80 || state.len() == 272,
    ensures
        ({
            let axes = pov_axes(
                bytes::u32_at(state, 32),
                bytes::as_signed(bytes::u32_at(state, 0)),
                bytes::as_signed(bytes::u32_at(state, 4)),
            );
            &&& bytes::as_signed(bytes::u32_at(converted_state(state), 0)) == axes.0
            &&& bytes::as_signed(bytes::u32_at(converted_state(state), 4)) == axes.1
            &&& forall|i: int|
                8 <= i < state.len() ==> #[trigger] converted_state(state)[i] == state[i]
        }),
{
    let axes = pov_axes(
        bytes::u32_at(state, 32),
        bytes::as_signed(bytes::u32_at(state, 0)),
        bytes::as_signed(bytes::u32_at(state, 4)),
    );
    let x = bytes::le32(bytes::as_unsigned(axes.0));
    let y = bytes::le32(bytes::as_unsigned(axes.1));
    let after = converted_state(state);
    bytes::lemma_read_back(bytes::as_unsigned(axes.0), 0);
    bytes::lemma_read_back(bytes::as_unsigned(axes.1), 0);
    bytes::lemma_signed(0, axes.0);
    bytes::lemma_signed(0, axes.1);
    assert(after.subrange(0, 4) =~= x);
    assert(after.subrange(4, 8) =~= y);
    assert(bytes::u32_at(after, 0) == bytes::u32_at(after.subrange(0, 4), 0));
    assert(bytes::u32_at(after, 4) == bytes::u32_at(after.subrange(4, 8), 0));
}

/// The layout of a joystick state, and the slots of the methods that are patched.
pub proof fn lemma_input_layout()
    ensures
        DIJOYSTATE_SIZE == 80,
        DIJOYSTATE2_SIZE == 272,
        LX_OFFSET == 0,
        LY_OFFSET == 4,
        POV0_OFFSET == 32,
        POV_FULL_REVOLUTION == 36000,
        CREATE_DEVICE_SLOT == 3,
        GET_DEVICE_STATE_SLOT == 9,
{
}

} // verus!
