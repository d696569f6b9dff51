//! The games' frame loop, restructured into calc, draw, present; and the held keys that
//! the older games report.

use crate::replay::HeldKeys;
use vstd::prelude::*;

verus! {

/// Whether a frame is drawn after the calc chain returned `res`: 0 and -1 mean that the
/// game tears down before another frame would be drawn.
pub fn draws_after_calc(res: i32) -> (draw: bool)
    ensures
        draw == (res != 0 && res != -1),
{
    res != 0 && res != -1
}

/// How long an inactive game sleeps per iteration of its message loop, in milliseconds.
/// Its own update returns at once, and the loop would spin.
pub fn inactive_sleep(app_active: i32) -> (ms: Option<u32>)
    ensures
        ms == if app_active == 0 {
            Some(16u32)
        } else {
            None
        },
{
    if app_active == 0 {
        Some(16)
    } else {
        None
    }
}

/// One step of the relocated draw block.
#[derive(Clone, Copy, Debug, PartialEq, Eq, Structural)]
pub enum DrawStep {
    /// Set the viewport to the whole framebuffer.
    FullViewport,
    /// Clear target and depth with the sky's colour.
    Clear,
    /// Set the game's own viewport again.
    SavedViewport,
    BeginScene,
    TextureBegin,
    /// Ask for a fog reset by this value, then update the fog.
    ResetFog(u32),
    RunDrawChain,
    TextureFlush,
    EndScene,
    /// Unbind texture 0.
    UnbindTexture,
}

/// The options under which the back buffer is cleared.
pub const CLEAR_BACKBUFFER_OPTS_MASK: u32 = 0x18;

/// The value that asks for a fog reset.
pub const FOG_RESET: u32 = 0xff;

/// The draw block of th06.
pub open spec fn th06_steps(device: usize, opts: u32) -> Seq<DrawStep> {
    if device == 0 {
        seq![]
    } else {
        (if opts & CLEAR_BACKBUFFER_OPTS_MASK != 0 {
            seq![DrawStep::FullViewport, DrawStep::Clear, DrawStep::SavedViewport]
        } else {
            seq![]
        }) + seq![
            DrawStep::BeginScene,
            DrawStep::RunDrawChain,
            DrawStep::EndScene,
            DrawStep::UnbindTexture,
        ]
    }
}

/// Plans the draw block of th06: nothing without a device.
pub fn th06_draw_frame(device: usize, opts: u32) -> (steps: Vec<DrawStep>)
    ensures
        steps@ == th06_steps(device, opts),
{
    let mut steps: Vec<DrawStep> = Vec::new();
    if device == 0 {
        assert(steps@ =~= th06_steps(device, opts));
        return steps;
    }
    if opts & CLEAR_BACKBUFFER_OPTS_MASK != 0 {
        steps.push(DrawStep::FullViewport);
        steps.push(DrawStep::Clear);
        steps.push(DrawStep::SavedViewport);
    }
    steps.push(DrawStep::BeginScene);
    steps.push(DrawStep::RunDrawChain);
    steps.push(DrawStep::EndScene);
    steps.push(DrawStep::UnbindTexture);
    assert(steps@ =~= th06_steps(device, opts));
    steps
}

/// The draw block of th07.
pub open spec fn th07_steps(device: usize, textures: usize) -> Seq<DrawStep> {
    if device == 0 || textures == 0 {
        seq![]
    } else {
        seq![
            DrawStep::BeginScene,
            DrawStep::TextureBegin,
            DrawStep::ResetFog(FOG_RESET),
            DrawStep::RunDrawChain,
            DrawStep::TextureFlush,
            DrawStep::UnbindTexture,
            DrawStep::EndScene,
        ]
    }
}

/// Plans the draw block of th07: nothing without a device and a texture manager.
pub fn th07_draw_frame(device: usize, textures: usize) -> (steps: Vec<DrawStep>)
    ensures
        steps@ == th07_steps(device, textures),
{
    let mut steps: Vec<DrawStep> = Vec::new();
    if device == 0 || textures == 0 {
        assert(steps@ =~= th07_steps(device, textures));
        return steps;
    }
    steps.push(DrawStep::BeginScene);
    steps.push(DrawStep::TextureBegin);
    steps.push(DrawStep::ResetFog(FOG_RESET));
    steps.push(DrawStep::RunDrawChain);
    steps.push(DrawStep::TextureFlush);
    steps.push(DrawStep::UnbindTexture);
    steps.push(DrawStep::EndScene);
    assert(steps@ =~= th07_steps(device, textures));
    steps
}

/// The input bits of the older games.
pub const INPUT_SHOOT: u32 = 0x1;

pub const INPUT_FOCUS: u32 = 0x4;

pub const INPUT_SKIP: u32 = 0x100;

/// The state in which a stage runs.
pub const STATE_GAME: i32 = 2;

/// The held-key bits that the game's own input function returned last.
pub struct ObservedInput {
    bits: u16,
}

impl View for ObservedInput {
    type V = u16;

    closed spec fn view(&self) -> u16 {
        self.bits
    }
}

impl ObservedInput {
    pub fn new() -> (input: ObservedInput)
        ensures
            input@ == 0,
    {
        ObservedInput { bits: 0 }
    }

    /// Records one frame's input.
    pub fn record_input(&mut self, input: u16)
        ensures
            final(self)@ == input,
    {
        self.bits = input;
    }

    pub fn get(&self) -> (bits: u16)
        ensures
            bits == self@,
    {
        self.bits
    }
}

/// What a game's memory says about playback.
#[derive(Clone, Copy, Debug, PartialEq, Eq, Structural)]
pub struct StageState {
    pub requested: i32,
    pub settled: i32,
    pub in_replay: bool,
    /// The counter behind the game's auto-focus, for pads with shoot and focus on one
    /// button.
    pub conflict_counter: u16,
}

/// The input without the focus that the game adds of itself: while the shared button is
/// held long enough, the focus bit says nothing.
pub open spec fn player_input(bits: u16, counter: u16, threshold: u16) -> u32 {
    if (bits as u32) & INPUT_SHOOT != 0 && counter >= threshold {
        (bits as u32) & !INPUT_FOCUS
    } else {
        bits as u32
    }
}

/// The held keys during playback.
pub open spec fn held_keys(state: StageState, bits: u16, threshold: u16) -> Option<HeldKeys> {
    if (state.requested != STATE_GAME && state.settled != STATE_GAME) || !state.in_replay {
        None
    } else {
        let input = player_input(bits, state.conflict_counter, threshold);
        Some(
            HeldKeys {
                shoot: input & INPUT_SHOOT != 0,
                focus: input & INPUT_FOCUS != 0,
                skip: input & INPUT_SKIP != 0,
                ctrl: false,
            },
        )
    }
}

/// Reads the held keys during playback; `None` outside of it.
pub fn replay_keys(state: StageState, bits: u16, threshold: u16) -> (res: Option<HeldKeys>)
    ensures
        res == held_keys(state, bits, threshold),
{
    let in_stage = state.requested == STATE_GAME || state.settled == STATE_GAME;
    if !in_stage || !state.in_replay {
        return None;
    }
    let mut input: u32 = bits as u32;
    if input & INPUT_SHOOT != 0 && state.conflict_counter >= threshold {
        input = input & !INPUT_FOCUS;
    }
    Some(
        HeldKeys {
            shoot: input & INPUT_SHOOT != 0,
            focus: input & INPUT_FOCUS != 0,
            skip: input & INPUT_SKIP != 0,
            ctrl: false,
        },
    )
}

/// The game's auto-focus never asks for slow motion: with shoot held beyond the threshold
/// focus is not reported, while shoot and skip are as the player holds them.
pub proof fn lemma_auto_focus_masked(state: StageState, bits: u16, threshold: u16)
    requires
        held_keys(state, bits, threshold) is Some,
    ensures
        ({
            let keys = held_keys(state, bits, threshold)->0;
            let held = bits as u32;
            &&& keys.shoot == (held & INPUT_SHOOT != 0)
            &&& keys.skip == (held & INPUT_SKIP != 0)
            &&& keys.focus == (held & INPUT_FOCUS != 0 && !(keys.shoot && state.conflict_counter
                >= threshold))
        }),
{
    let held = bits as u32;
    assert((held & !INPUT_FOCUS) & INPUT_FOCUS == 0 && (held & !INPUT_FOCUS) & INPUT_SHOOT == held
        & INPUT_SHOOT && (held & !INPUT_FOCUS) & INPUT_SKIP == held & INPUT_SKIP) by (bit_vector);
}

/// Whether `step` is done once, as number `i`.
pub open spec fn once_at(steps: Seq<DrawStep>, step: DrawStep, i: int) -> bool {
    &&& 0 <= i < steps.len() && steps[i] == step
    &&& forall|j: int| 0 <= j < steps.len() && j != i ==> #[trigger] steps[j] != step
}

/// A frame of th06 draws its chain inside one scene, and unbinds the texture behind it. The
/// back buffer is cleared before the scene exactly under one of the two options for it,
/// with the whole framebuffer as the viewport, which the game then gets back.
pub proof fn lemma_th06_frame(device: usize, opts: u32)
    ensures
        device == 0 ==> th06_steps(device, opts).len() == 0,
        device != 0 ==> {
            let steps = th06_steps(device, opts);
            let n = steps.len() as int;
            &&& once_at(steps, DrawStep::BeginScene, n - 4)
            &&& once_at(steps, DrawStep::RunDrawChain, n - 3)
            &&& once_at(steps, DrawStep::EndScene, n - 2)
            &&& once_at(steps, DrawStep::UnbindTexture, n - 1)
            &&& opts & 0x18 == 0 ==> n == 4
            &&& opts & 0x18 != 0 ==> n == 7 && once_at(steps, DrawStep::FullViewport, 0) && once_at(
                steps,
                DrawStep::Clear,
                1,
            ) && once_at(steps, DrawStep::SavedViewport, 2)
        },
{
}

/// A frame of th07 is one scene from its first step to its last; the chain is drawn once in
/// it, after the textures were begun and the fog reset, and before they are flushed and
/// unbound.
pub proof fn lemma_th07_frame(device: usize, textures: usize)
    ensures
        device == 0 || textures == 0 ==> th07_steps(device, textures).len() == 0,
        device != 0 && textures != 0 ==> {
            let steps = th07_steps(device, textures);
            let n = steps.len() as int;
            &&& once_at(steps, DrawStep::BeginScene, 0)
            &&& once_at(steps, DrawStep::EndScene, n - 1)
            &&& exists|b: int, f: int, d: int, e: int, u: int|
                #![auto]
                once_at(steps, DrawStep::TextureBegin, b) && once_at(
                    steps,
                    DrawStep::ResetFog(0xff),
                    f,
                ) && once_at(steps, DrawStep::RunDrawChain, d) && once_at(
                    steps,
                    DrawStep::TextureFlush,
                    e,
                ) && once_at(steps, DrawStep::UnbindTexture, u) && b < f < d < e < u
            &&& n == 7
        },
{
    if device != 0 && textures != 0 {
        let steps = th07_steps(device, textures);
        assert(once_at(steps, DrawStep::TextureBegin, 1));
        assert(once_at(steps, DrawStep::ResetFog(0xff), 2));
        assert(once_at(steps, DrawStep::RunDrawChain, 3));
        assert(once_at(steps, DrawStep::TextureFlush, 4));
        assert(once_at(steps, DrawStep::UnbindTexture, 5));
    }
}

/// Keys are reported exactly while a replay plays in a stage that was asked for or runs.
/// Shoot, skip and focus are the bits 0, 8 and 2 of the input, but a focus that the game
/// added of itself to a long shot is none.
pub proof fn lemma_held_keys(state: StageState, bits: u16, threshold: u16)
    ensures
        held_keys(state, bits, threshold) is Some <==> state.in_replay && (state.requested == 2
            || state.settled == 2),
        held_keys(state, bits, threshold) is Some ==> {
            let keys = held_keys(state, bits, threshold)->0;
            let held = bits as u32;
            &&& keys.shoot == (held & 1 != 0)
            &&& keys.skip == (held & 0x100 != 0)
            &&& keys.focus == (held & 4 != 0 && (held & 1 == 0 || state.conflict_counter
                < threshold))
            &&& !keys.ctrl
        },
{
    if held_keys(state, bits, threshold) is Some {
        lemma_auto_focus_masked(state, bits, threshold);
    }
}

/// The bits and states of the older games.
pub proof fn lemma_frame_codes()
    ensures
        CLEAR_BACKBUFFER_OPTS_MASK == 0x18,
        FOG_RESET == 0xff,
        STATE_GAME == 2,
{
}

} // verus!
