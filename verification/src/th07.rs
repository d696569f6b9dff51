//! Patches and hooks for th07 v1.00b.

use crate::d3d8::call_site_rewrite;
use crate::frame_loop::{ObservedInput, StageState};
use crate::frame_loop;
use crate::patches::PatchSite;
use crate::bytes;
use crate::patches;
use crate::replay::HeldKeys;
use vstd::prelude::*;

verus! {

/// The addresses of the functions that the edits branch to.
#[derive(Clone, Copy, Debug, PartialEq, Eq, Structural)]
pub struct Hooks {
    pub direct3d_create8: u32,
    pub calc_then_draw: u32,
    pub window_update_gate: u32,
    pub cfg_write: u32,
    pub init_d3d_rendering: u32,
    pub get_input: u32,
}

/// What [`standalone_patches`] holds.
pub open spec fn are_standalone_patches(sites: Seq<PatchSite>) -> bool {
    &&& sites.len() == 1
    &&& patches::is_edit(
        sites[0],
        0x0043_0f03,
        seq![0x1eu8, 0x00u8, 0x07u8, 0x80u8, 0x75u8],
        seq![0x00u8, 0x00u8, 0x00u8, 0x00u8, 0x74u8],
        "keyboard re-acquire on any input failure"@,
    )
}

/// Edits that stand on their own.
pub fn standalone_patches() -> (sites: Vec<PatchSite>)
    ensures
        are_standalone_patches(sites@),
{
    let mut sites: Vec<PatchSite> = Vec::new();
    let e0: [u8; 5] = [0x1e, 0x00, 0x07, 0x80, 0x75];
    assert(e0@ =~= seq![0x1eu8, 0x00u8, 0x07u8, 0x80u8, 0x75u8]);
    let r0: [u8; 5] = [0x00, 0x00, 0x00, 0x00, 0x74];
    assert(r0@ =~= seq![0x00u8, 0x00u8, 0x00u8, 0x00u8, 0x74u8]);
    let s0 = PatchSite::replace(0x0043_0f03, &e0, &r0, "keyboard re-acquire on any input failure");
    sites.push(s0);
    sites
}

/// What [`frame_loop_patches`] holds.
pub open spec fn are_frame_loop_patches(sites: Seq<PatchSite>, hooks: Hooks) -> bool {
    &&& sites.len() == 4
    &&& patches::is_branch(
        sites[0],
        patches::OPCODE_CALL,
        0x0043_4a45,
        seq![0xe8u8, 0x52u8, 0xd0u8, 0x02u8, 0x00u8],
        hooks.direct3d_create8,
        "Direct3DCreate8 call-site rewrite"@,
    )
    &&& patches::is_edit(
        sites[1],
        0x0043_4718,
        seq![0x7fu8, 0x74u8],
        seq![0xebu8, 0x74u8],
        "draw-before-calc skip"@,
    )
    &&& patches::is_branch(
        sites[2],
        patches::OPCODE_CALL,
        0x0043_47df,
        seq![0xe8u8, 0x7cu8, 0xb5u8, 0xffu8, 0xffu8],
        hooks.calc_then_draw,
        "calc-then-draw reorder"@,
    )
    &&& patches::is_branch(
        sites[3],
        patches::OPCODE_JMP,
        0x0043_4820,
        seq![0x0fu8, 0xb6u8, 0x05u8, 0x8au8, 0x5au8, 0x57u8, 0x00u8],
        0x0043_4a18,
        "software frame limiter skip"@,
    )
}

/// The edits that restructure the frame loop into calc, draw, present.
pub fn frame_loop_patches(hooks: &Hooks) -> (sites: Vec<PatchSite>)
    ensures
        are_frame_loop_patches(sites@, *hooks),
{
    let mut sites: Vec<PatchSite> = Vec::new();
    let e0: [u8; 5] = [0xe8, 0x52, 0xd0, 0x02, 0x00];
    assert(e0@ =~= seq![0xe8u8, 0x52u8, 0xd0u8, 0x02u8, 0x00u8]);
    let s0 = call_site_rewrite(0x0043_4a45, &e0, hooks.direct3d_create8);
    sites.push(s0);
    let e1: [u8; 2] = [0x7f, 0x74];
    assert(e1@ =~= seq![0x7fu8, 0x74u8]);
    let r1: [u8; 2] = [0xeb, 0x74];
    assert(r1@ =~= seq![0xebu8, 0x74u8]);
    let s1 = PatchSite::replace(0x0043_4718, &e1, &r1, "draw-before-calc skip");
    sites.push(s1);
    let e2: [u8; 5] = [0xe8, 0x7c, 0xb5, 0xff, 0xff];
    assert(e2@ =~= seq![0xe8u8, 0x7cu8, 0xb5u8, 0xffu8, 0xffu8]);
    let s2 = PatchSite::call(0x0043_47df, &e2, hooks.calc_then_draw, "calc-then-draw reorder");
    sites.push(s2);
    let e3: [u8; 7] = [0x0f, 0xb6, 0x05, 0x8a, 0x5a, 0x57, 0x00];
    assert(e3@ =~= seq![0x0fu8, 0xb6u8, 0x05u8, 0x8au8, 0x5au8, 0x57u8, 0x00u8]);
    let s3 = PatchSite::jmp(0x0043_4820, &e3, 0x0043_4a18, "software frame limiter skip");
    sites.push(s3);
    sites
}

/// What [`hook_patches`] holds.
pub open spec fn are_hook_patches(sites: Seq<PatchSite>, hooks: Hooks) -> bool {
    &&& sites.len() == 5
    &&& patches::is_branch(
        sites[0],
        patches::OPCODE_CALL,
        0x0043_41f7,
        seq![0xe8u8, 0xe4u8, 0x04u8, 0x00u8, 0x00u8],
        hooks.window_update_gate,
        "window-update gate (inactive sleep)"@,
    )
    &&& patches::is_branch(
        sites[1],
        patches::OPCODE_CALL,
        0x0043_40eb,
        seq![0xe8u8, 0xe0u8, 0x0au8, 0x00u8, 0x00u8],
        hooks.init_d3d_rendering,
        "display and color depth scope (InitD3dRendering)"@,
    )
    &&& patches::is_branch(
        sites[2],
        patches::OPCODE_CALL,
        0x0043_4433,
        seq![0xe8u8, 0x08u8, 0xd1u8, 0xffu8, 0xffu8],
        hooks.cfg_write,
        "config write-back restore"@,
    )
    &&& patches::is_branch(
        sites[3],
        patches::OPCODE_CALL,
        0x0043_7d80,
        seq![0xe8u8, 0xcbu8, 0x8du8, 0xffu8, 0xffu8],
        hooks.get_input,
        "input observer (live)"@,
    )
    &&& patches::is_branch(
        sites[4],
        patches::OPCODE_CALL,
        0x0043_7dfc,
        seq![0xe8u8, 0x4fu8, 0x8du8, 0xffu8, 0xffu8],
        hooks.get_input,
        "input observer (replay)"@,
    )
}

/// The call sites that are redirected to hooks.
pub fn hook_patches(hooks: &Hooks) -> (sites: Vec<PatchSite>)
    ensures
        are_hook_patches(sites@, *hooks),
{
    let mut sites: Vec<PatchSite> = Vec::new();
    let e0: [u8; 5] = [0xe8, 0xe4, 0x04, 0x00, 0x00];
    assert(e0@ =~= seq![0xe8u8, 0xe4u8, 0x04u8, 0x00u8, 0x00u8]);
    let s0 = PatchSite::call(0x0043_41f7, &e0, hooks.window_update_gate, "window-update gate (inactive sleep)");
    sites.push(s0);
    let e1: [u8; 5] = [0xe8, 0xe0, 0x0a, 0x00, 0x00];
    assert(e1@ =~= seq![0xe8u8, 0xe0u8, 0x0au8, 0x00u8, 0x00u8]);
    let s1 = PatchSite::call(0x0043_40eb, &e1, hooks.init_d3d_rendering, "display and color depth scope (InitD3dRendering)");
    sites.push(s1);
    let e2: [u8; 5] = [0xe8, 0x08, 0xd1, 0xff, 0xff];
    assert(e2@ =~= seq![0xe8u8, 0x08u8, 0xd1u8, 0xffu8, 0xffu8]);
    let s2 = PatchSite::call(0x0043_4433, &e2, hooks.cfg_write, "config write-back restore");
    sites.push(s2);
    let e3: [u8; 5] = [0xe8, 0xcb, 0x8d, 0xff, 0xff];
    assert(e3@ =~= seq![0xe8u8, 0xcbu8, 0x8du8, 0xffu8, 0xffu8]);
    let s3 = PatchSite::call(0x0043_7d80, &e3, hooks.get_input, "input observer (live)");
    sites.push(s3);
    let e4: [u8; 5] = [0xe8, 0x4f, 0x8d, 0xff, 0xff];
    assert(e4@ =~= seq![0xe8u8, 0x4fu8, 0x8du8, 0xffu8, 0xffu8]);
    let s4 = PatchSite::call(0x0043_7dfc, &e4, hooks.get_input, "input observer (replay)");
    sites.push(s4);
    sites
}

/// No two edits touch the same byte, so each finds what it expects whatever the others
/// have written.
pub proof fn lemma_edits_disjoint(standalone_patches: Seq<PatchSite>, frame_loop_patches: Seq<PatchSite>, hook_patches: Seq<PatchSite>, hooks: Hooks)
    requires
        are_standalone_patches(standalone_patches),
        are_frame_loop_patches(frame_loop_patches, hooks),
        are_hook_patches(hook_patches, hooks),
    ensures
        patches::disjoint(standalone_patches + frame_loop_patches + hook_patches),
{
}

pub const G_ENGINE: u32 = 0x0057_5950;

/// The flag that the replay menu sets when playback starts, for the whole of it.
pub const GAME_FLAG_REPLAY_MASK: u32 = 0x8;

/// Whether the flags of the game say that a replay plays.
pub fn in_replay(flags: u32) -> (res: bool)
    ensures
        res == (flags & GAME_FLAG_REPLAY_MASK != 0),
{
    flags & GAME_FLAG_REPLAY_MASK != 0
}

/// The counter value from which the game adds focus to a held shoot button.
pub const AUTO_FOCUS_THRESHOLD: u16 = 10;

/// Reads the held keys during playback.
pub fn replay_keys(state: StageState, input: &ObservedInput) -> (res: Option<HeldKeys>)
    ensures
        res == frame_loop::held_keys(state, input@, AUTO_FOCUS_THRESHOLD),
{
    frame_loop::replay_keys(state, input.get(), AUTO_FOCUS_THRESHOLD)
}

/// Where the configuration's bytes stand.
#[derive(Clone, Copy, Debug, PartialEq, Eq, Structural)]
pub struct CfgAddrs {
    pub windowed: u32,
    pub opts: u32,
    pub frameskip: u32,
    pub color_mode: u32,
}

/// The addresses of the overridden settings.
pub fn cfg_addrs() -> (addrs: CfgAddrs)
    ensures
        addrs == (CfgAddrs {
            windowed: 0x0057_5a8a,
            opts: 0x0057_5a9c,
            frameskip: 0x0057_5a8b,
            color_mode: 0x0057_5a86,
        }),
        addrs.windowed == G_ENGINE + 0x118 + 0x22,
        addrs.opts == G_ENGINE + 0x118 + 0x34,
        addrs.frameskip == G_ENGINE + 0x118 + 0x23,
        addrs.color_mode == G_ENGINE + 0x118 + 0x1e,
{
    let cfg: u32 = G_ENGINE + 0x118;
    CfgAddrs {
        windowed: cfg + 0x22,
        opts: cfg + 0x34,
        frameskip: cfg + 0x23,
        color_mode: cfg + 0x1e,
    }
}

/// What the edits that stand on their own write, and over what.
pub proof fn lemma_standalone_patches(sites: Seq<PatchSite>)
    requires
        are_standalone_patches(sites),
    ensures
        sites.len() == 1,
        sites[0].addr() == 0x430f03,
        sites[0].expected() == seq![0x1eu8, 0x00u8, 0x07u8, 0x80u8, 0x75u8],
        sites[0].replacement().len() == 5,
        sites[0].replacement()[0] == 0x00,
        sites[0].replacement()[2] == 0x00,
        sites[0].replacement()[3] == 0x00,
        sites[0].replacement()[4] == 0x74,
        sites[0].replacement()[1] == sites[0].expected()[1],
        sites[0].branch_to() is None,
        sites[0].label() == "keyboard re-acquire on any input failure"@,
{
}

/// Where the edits of the frame loop lead and what they are written over.
#[verifier::spinoff_prover]
#[verifier::rlimit(40)]
pub proof fn lemma_frame_loop_patches(sites: Seq<PatchSite>, hooks: Hooks)
    requires
        are_frame_loop_patches(sites, hooks),
    ensures
        sites.len() == 4,
        sites[0].addr() == 0x434a45,
        sites[0].expected().len() == 5 && sites[0].expected()[0] == 0xe8,
        patches::branch_target(sites[0].addr(), bytes::u32_at(sites[0].expected(), 1)) == 0x461a9c,
        sites[0].replacement()[0] == 0xe8 && sites[0].replacement().len() == 5,
        patches::branch_target(sites[0].addr(), bytes::u32_at(sites[0].replacement(), 1)) == hooks.direct3d_create8,
        sites[0].branch_to() == Some((0xe8u8, hooks.direct3d_create8)),
        sites[0].label() == "Direct3DCreate8 call-site rewrite"@,
        sites[1].addr() == 0x434718,
        sites[1].expected() == seq![0x7fu8, 0x74u8],
        sites[1].replacement().len() == 2,
        sites[1].replacement()[0] == 0xeb,
        sites[1].replacement()[1] == sites[1].expected()[1],
        sites[1].branch_to() is None,
        sites[1].label() == "draw-before-calc skip"@,
        sites[2].addr() == 0x4347df,
        sites[2].expected().len() == 5 && sites[2].expected()[0] == 0xe8,
        patches::branch_target(sites[2].addr(), bytes::u32_at(sites[2].expected(), 1)) == 0x42fd60,
        sites[2].replacement()[0] == 0xe8 && sites[2].replacement().len() == 5,
        patches::branch_target(sites[2].addr(), bytes::u32_at(sites[2].replacement(), 1)) == hooks.calc_then_draw,
        sites[2].branch_to() == Some((0xe8u8, hooks.calc_then_draw)),
        sites[2].label() == "calc-then-draw reorder"@,
        sites[3].addr() == 0x434820,
        sites[3].expected() == seq![0x0fu8, 0xb6u8, 0x05u8, 0x8au8, 0x5au8, 0x57u8, 0x00u8],
        sites[3].replacement()[0] == 0xe9 && sites[3].replacement().len() == 7,
        patches::branch_target(sites[3].addr(), bytes::u32_at(sites[3].replacement(), 1)) == 0x434a18,
        sites[3].branch_to() == Some((0xe9u8, 0x434a18u32)),
        sites[3].label() == "software frame limiter skip"@,
        forall|i: int| 5 <= i < 7 ==> #[trigger] sites[3].replacement()[i] == 0x90,
{
    assert(patches::branch_target(sites[0].addr(), bytes::u32_at(sites[0].expected(), 1)) == 0x461a9c);
    assert(sites[0].replacement()[0] == 0xe8 && sites[0].replacement().len() == 5
        && patches::branch_target(sites[0].addr(), bytes::u32_at(sites[0].replacement(), 1)) == hooks.direct3d_create8) by {
        patches::lemma_branch_bytes(0xe8, 0x434a45, hooks.direct3d_create8, 5);
    }
    assert(patches::branch_target(sites[2].addr(), bytes::u32_at(sites[2].expected(), 1)) == 0x42fd60);
    assert(sites[2].replacement()[0] == 0xe8 && sites[2].replacement().len() == 5
        && patches::branch_target(sites[2].addr(), bytes::u32_at(sites[2].replacement(), 1)) == hooks.calc_then_draw) by {
        patches::lemma_branch_bytes(0xe8, 0x4347df, hooks.calc_then_draw, 5);
    }
    assert(sites[3].replacement()[0] == 0xe9 && sites[3].replacement().len() == 7
        && patches::branch_target(sites[3].addr(), bytes::u32_at(sites[3].replacement(), 1)) == 0x434a18
        && (forall|i: int| 5 <= i < 7 ==> #[trigger] sites[3].replacement()[i] == 0x90)) by {
        patches::lemma_branch_bytes(0xe9, 0x434820, 0x434a18, 7);
    }
}

/// Each redirected call went to a function of the game, and goes to its hook.
#[verifier::spinoff_prover]
#[verifier::rlimit(40)]
pub proof fn lemma_hook_patches(sites: Seq<PatchSite>, hooks: Hooks)
    requires
        are_hook_patches(sites, hooks),
    ensures
        sites.len() == 5,
        sites[0].addr() == 0x4341f7,
        sites[0].expected().len() == 5 && sites[0].expected()[0] == 0xe8,
        patches::branch_target(sites[0].addr(), bytes::u32_at(sites[0].expected(), 1)) == 0x4346e0,
        sites[0].replacement()[0] == 0xe8 && sites[0].replacement().len() == 5,
        patches::branch_target(sites[0].addr(), bytes::u32_at(sites[0].replacement(), 1)) == hooks.window_update_gate,
        sites[0].branch_to() == Some((0xe8u8, hooks.window_update_gate)),
        sites[0].label() == "window-update gate (inactive sleep)"@,
        sites[1].addr() == 0x4340eb,
        sites[1].expected().len() == 5 && sites[1].expected()[0] == 0xe8,
        patches::branch_target(sites[1].addr(), bytes::u32_at(sites[1].expected(), 1)) == 0x434bd0,
        sites[1].replacement()[0] == 0xe8 && sites[1].replacement().len() == 5,
        patches::branch_target(sites[1].addr(), bytes::u32_at(sites[1].replacement(), 1)) == hooks.init_d3d_rendering,
        sites[1].branch_to() == Some((0xe8u8, hooks.init_d3d_rendering)),
        sites[1].label() == "display and color depth scope (InitD3dRendering)"@,
        sites[2].addr() == 0x434433,
        sites[2].expected().len() == 5 && sites[2].expected()[0] == 0xe8,
        patches::branch_target(sites[2].addr(), bytes::u32_at(sites[2].expected(), 1)) == 0x431540,
        sites[2].replacement()[0] == 0xe8 && sites[2].replacement().len() == 5,
        patches::branch_target(sites[2].addr(), bytes::u32_at(sites[2].replacement(), 1)) == hooks.cfg_write,
        sites[2].branch_to() == Some((0xe8u8, hooks.cfg_write)),
        sites[2].label() == "config write-back restore"@,
        sites[3].addr() == 0x437d80,
        sites[3].expected().len() == 5 && sites[3].expected()[0] == 0xe8,
        patches::branch_target(sites[3].addr(), bytes::u32_at(sites[3].expected(), 1)) == 0x430b50,
        sites[3].replacement()[0] == 0xe8 && sites[3].replacement().len() == 5,
        patches::branch_target(sites[3].addr(), bytes::u32_at(sites[3].replacement(), 1)) == hooks.get_input,
        sites[3].branch_to() == Some((0xe8u8, hooks.get_input)),
        sites[3].label() == "input observer (live)"@,
        sites[4].addr() == 0x437dfc,
        sites[4].expected().len() == 5 && sites[4].expected()[0] == 0xe8,
        patches::branch_target(sites[4].addr(), bytes::u32_at(sites[4].expected(), 1)) == 0x430b50,
        sites[4].replacement()[0] == 0xe8 && sites[4].replacement().len() == 5,
        patches::branch_target(sites[4].addr(), bytes::u32_at(sites[4].replacement(), 1)) == hooks.get_input,
        sites[4].branch_to() == Some((0xe8u8, hooks.get_input)),
        sites[4].label() == "input observer (replay)"@,
{
    assert(patches::branch_target(sites[0].addr(), bytes::u32_at(sites[0].expected(), 1)) == 0x4346e0);
    assert(sites[0].replacement()[0] == 0xe8 && sites[0].replacement().len() == 5
        && patches::branch_target(sites[0].addr(), bytes::u32_at(sites[0].replacement(), 1)) == hooks.window_update_gate) by {
        patches::lemma_branch_bytes(0xe8, 0x4341f7, hooks.window_update_gate, 5);
    }
    assert(patches::branch_target(sites[1].addr(), bytes::u32_at(sites[1].expected(), 1)) == 0x434bd0);
    assert(sites[1].replacement()[0] == 0xe8 && sites[1].replacement().len() == 5
        && patches::branch_target(sites[1].addr(), bytes::u32_at(sites[1].replacement(), 1)) == hooks.init_d3d_rendering) by {
        patches::lemma_branch_bytes(0xe8, 0x4340eb, hooks.init_d3d_rendering, 5);
    }
    assert(patches::branch_target(sites[2].addr(), bytes::u32_at(sites[2].expected(), 1)) == 0x431540);
    assert(sites[2].replacement()[0] == 0xe8 && sites[2].replacement().len() == 5
        && patches::branch_target(sites[2].addr(), bytes::u32_at(sites[2].replacement(), 1)) == hooks.cfg_write) by {
        patches::lemma_branch_bytes(0xe8, 0x434433, hooks.cfg_write, 5);
    }
    assert(patches::branch_target(sites[3].addr(), bytes::u32_at(sites[3].expected(), 1)) == 0x430b50);
    assert(sites[3].replacement()[0] == 0xe8 && sites[3].replacement().len() == 5
        && patches::branch_target(sites[3].addr(), bytes::u32_at(sites[3].replacement(), 1)) == hooks.get_input) by {
        patches::lemma_branch_bytes(0xe8, 0x437d80, hooks.get_input, 5);
    }
    assert(patches::branch_target(sites[4].addr(), bytes::u32_at(sites[4].expected(), 1)) == 0x430b50);
    assert(sites[4].replacement()[0] == 0xe8 && sites[4].replacement().len() == 5
        && patches::branch_target(sites[4].addr(), bytes::u32_at(sites[4].replacement(), 1)) == hooks.get_input) by {
        patches::lemma_branch_bytes(0xe8, 0x437dfc, hooks.get_input, 5);
    }
}

/// Drawing before the calculation is skipped by always taking the conditional jump that stood
/// there.
pub proof fn lemma_jumps_taken(sites: Seq<PatchSite>, hooks: Hooks)
    requires
        are_frame_loop_patches(sites, hooks),
    ensures
        sites[1].replacement() == sites[1].expected().update(0, 0xebu8),
{
    assert(sites[1].replacement() =~= sites[1].expected().update(0, 0xebu8));
}

/// Live play and replays read their input through the same function of the game, and both are
/// observed by the same hook.
pub proof fn lemma_inputs_observed(sites: Seq<PatchSite>, hooks: Hooks)
    requires
        are_hook_patches(sites, hooks),
    ensures
        patches::branch_target(sites[3].addr(), bytes::u32_at(sites[3].expected(), 1))
            == patches::branch_target(sites[4].addr(), bytes::u32_at(sites[4].expected(), 1)),
        sites[3].branch_to() == sites[4].branch_to(),
{
    lemma_hook_patches(sites, hooks);
}

/// Where the game's engine stands, which flag says that a replay plays, and from when on a
/// held shoot button focuses.
pub proof fn lemma_game_constants()
    ensures
        G_ENGINE == 0x0057_5950,
        GAME_FLAG_REPLAY_MASK == 8,
        AUTO_FOCUS_THRESHOLD == 10,
{
}

} // verus!
