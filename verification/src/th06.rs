//! Patches and hooks for th06 v1.02h.

use crate::d3d8::call_site_rewrite;
use crate::frame_loop::{ObservedInput, StageState};
use crate::frame_loop;
use crate::patches::PatchSite;
use crate::bytes;
use crate::patches;
use crate::replay::HeldKeys;
use vstd::prelude::*;

verus! {

/// The addresses of the functions that the edits branch to.
#[derive(Clone, Copy, Debug, PartialEq, Eq, Structural)]
pub struct Hooks {
    pub direct3d_create8: u32,
    pub calc_then_draw: u32,
    pub render_gate: u32,
    pub cfg_write: u32,
    pub init_d3d_rendering: u32,
    pub get_input: u32,
}

/// What [`standalone_patches`] holds.
pub open spec fn are_standalone_patches(sites: Seq<PatchSite>) -> bool {
    &&& sites.len() == 1
    &&& patches::is_edit(
        sites[0],
        0x0041_dc58,
        seq![0x1eu8, 0x00u8, 0x07u8, 0x80u8, 0x75u8],
        seq![0x00u8, 0x00u8, 0x00u8, 0x00u8, 0x74u8],
        "keyboard re-acquire on any input failure"@,
    )
}

/// Edits that stand on their own.
pub fn standalone_patches() -> (sites: Vec<PatchSite>)
    ensures
        are_standalone_patches(sites@),
{
    let mut sites: Vec<PatchSite> = Vec::new();
    let e0: [u8; 5] = [0x1e, 0x00, 0x07, 0x80, 0x75];
    assert(e0@ =~= seq![0x1eu8, 0x00u8, 0x07u8, 0x80u8, 0x75u8]);
    let r0: [u8; 5] = [0x00, 0x00, 0x00, 0x00, 0x74];
    assert(r0@ =~= seq![0x00u8, 0x00u8, 0x00u8, 0x00u8, 0x74u8]);
    let s0 = PatchSite::replace(0x0041_dc58, &e0, &r0, "keyboard re-acquire on any input failure");
    sites.push(s0);
    sites
}

/// What [`frame_loop_patches`] holds.
pub open spec fn are_frame_loop_patches(sites: Seq<PatchSite>, hooks: Hooks) -> bool {
    &&& sites.len() == 6
    &&& patches::is_branch(
        sites[0],
        patches::OPCODE_CALL,
        0x0042_0bd5,
        seq![0xe8u8, 0xd2u8, 0xdfu8, 0x01u8, 0x00u8],
        hooks.direct3d_create8,
        "Direct3DCreate8 call-site rewrite"@,
    )
    &&& patches::is_branch(
        sites[1],
        patches::OPCODE_JMP,
        0x0042_071a,
        seq![0x0fu8, 0x8fu8, 0xedu8, 0x00u8, 0x00u8, 0x00u8],
        0x0042_080d,
        "draw-before-calc skip"@,
    )
    &&& patches::is_branch(
        sites[2],
        patches::OPCODE_CALL,
        0x0042_0853,
        seq![0xe8u8, 0xb8u8, 0xc1u8, 0xffu8, 0xffu8],
        hooks.calc_then_draw,
        "calc-then-draw reorder"@,
    )
    &&& patches::is_branch(
        sites[3],
        patches::OPCODE_JMP,
        0x0042_08ed,
        seq![0x6au8, 0x01u8, 0xffu8, 0x15u8, 0x50u8, 0xa2u8, 0x46u8, 0x00u8],
        0x0042_0990,
        "software frame limiter skip"@,
    )
    &&& patches::is_edit(
        sites[4],
        0x0042_09a2,
        seq![0x7du8, 0x02u8],
        seq![0x90u8, 0x90u8],
        "frameskip catch-up loop skip (windowed)"@,
    )
    &&& patches::is_edit(
        sites[5],
        0x0042_09ff,
        seq![0x7cu8, 0x0au8],
        seq![0xebu8, 0x0au8],
        "frameskip catch-up loop skip (fullscreen)"@,
    )
}

/// The edits that restructure the frame loop into calc, draw, present.
pub fn frame_loop_patches(hooks: &Hooks) -> (sites: Vec<PatchSite>)
    ensures
        are_frame_loop_patches(sites@, *hooks),
{
    let mut sites: Vec<PatchSite> = Vec::new();
    let e0: [u8; 5] = [0xe8, 0xd2, 0xdf, 0x01, 0x00];
    assert(e0@ =~= seq![0xe8u8, 0xd2u8, 0xdfu8, 0x01u8, 0x00u8]);
    let s0 = call_site_rewrite(0x0042_0bd5, &e0, hooks.direct3d_create8);
    sites.push(s0);
    let e1: [u8; 6] = [0x0f, 0x8f, 0xed, 0x00, 0x00, 0x00];
    assert(e1@ =~= seq![0x0fu8, 0x8fu8, 0xedu8, 0x00u8, 0x00u8, 0x00u8]);
    let s1 = PatchSite::jmp(0x0042_071a, &e1, 0x0042_080d, "draw-before-calc skip");
    sites.push(s1);
    let e2: [u8; 5] = [0xe8, 0xb8, 0xc1, 0xff, 0xff];
    assert(e2@ =~= seq![0xe8u8, 0xb8u8, 0xc1u8, 0xffu8, 0xffu8]);
    let s2 = PatchSite::call(0x0042_0853, &e2, hooks.calc_then_draw, "calc-then-draw reorder");
    sites.push(s2);
    let e3: [u8; 8] = [0x6a, 0x01, 0xff, 0x15, 0x50, 0xa2, 0x46, 0x00];
    assert(e3@ =~= seq![0x6au8, 0x01u8, 0xffu8, 0x15u8, 0x50u8, 0xa2u8, 0x46u8, 0x00u8]);
    let s3 = PatchSite::jmp(0x0042_08ed, &e3, 0x0042_0990, "software frame limiter skip");
    sites.push(s3);
    let e4: [u8; 2] = [0x7d, 0x02];
    assert(e4@ =~= seq![0x7du8, 0x02u8]);
    let s4 = PatchSite::nop(0x0042_09a2, &e4, "frameskip catch-up loop skip (windowed)");
    assert(s4.replacement() =~= seq![0x90u8, 0x90u8]);
    sites.push(s4);
    let e5: [u8; 2] = [0x7c, 0x0a];
    assert(e5@ =~= seq![0x7cu8, 0x0au8]);
    let r5: [u8; 2] = [0xeb, 0x0a];
    assert(r5@ =~= seq![0xebu8, 0x0au8]);
    let s5 = PatchSite::replace(0x0042_09ff, &e5, &r5, "frameskip catch-up loop skip (fullscreen)");
    sites.push(s5);
    sites
}

/// What [`hook_patches`] holds.
pub open spec fn are_hook_patches(sites: Seq<PatchSite>, hooks: Hooks) -> bool {
    &&& sites.len() == 4
    &&& patches::is_branch(
        sites[0],
        patches::OPCODE_CALL,
        0x0042_04ff,
        seq![0xe8u8, 0xdcu8, 0x01u8, 0x00u8, 0x00u8],
        hooks.render_gate,
        "render gate (inactive sleep)"@,
    )
    &&& patches::is_branch(
        sites[1],
        patches::OPCODE_CALL,
        0x0042_0661,
        seq![0xe8u8, 0xfau8, 0xddu8, 0xffu8, 0xffu8],
        hooks.cfg_write,
        "config write-back restore"@,
    )
    &&& patches::is_branch(
        sites[2],
        patches::OPCODE_CALL,
        0x0042_040d,
        seq![0xe8u8, 0x4eu8, 0x0au8, 0x00u8, 0x00u8],
        hooks.init_d3d_rendering,
        "color depth scope (InitD3dRendering)"@,
    )
    &&& patches::is_branch(
        sites[3],
        patches::OPCODE_CALL,
        0x0042_3361,
        seq![0xe8u8, 0xbau8, 0xa4u8, 0xffu8, 0xffu8],
        hooks.get_input,
        "input observer (replay speed)"@,
    )
}

/// The call sites that are redirected to hooks.
pub fn hook_patches(hooks: &Hooks) -> (sites: Vec<PatchSite>)
    ensures
        are_hook_patches(sites@, *hooks),
{
    let mut sites: Vec<PatchSite> = Vec::new();
    let e0: [u8; 5] = [0xe8, 0xdc, 0x01, 0x00, 0x00];
    assert(e0@ =~= seq![0xe8u8, 0xdcu8, 0x01u8, 0x00u8, 0x00u8]);
    let s0 = PatchSite::call(0x0042_04ff, &e0, hooks.render_gate, "render gate (inactive sleep)");
    sites.push(s0);
    let e1: [u8; 5] = [0xe8, 0xfa, 0xdd, 0xff, 0xff];
    assert(e1@ =~= seq![0xe8u8, 0xfau8, 0xddu8, 0xffu8, 0xffu8]);
    let s1 = PatchSite::call(0x0042_0661, &e1, hooks.cfg_write, "config write-back restore");
    sites.push(s1);
    let e2: [u8; 5] = [0xe8, 0x4e, 0x0a, 0x00, 0x00];
    assert(e2@ =~= seq![0xe8u8, 0x4eu8, 0x0au8, 0x00u8, 0x00u8]);
    let s2 = PatchSite::call(0x0042_040d, &e2, hooks.init_d3d_rendering, "color depth scope (InitD3dRendering)");
    sites.push(s2);
    let e3: [u8; 5] = [0xe8, 0xba, 0xa4, 0xff, 0xff];
    assert(e3@ =~= seq![0xe8u8, 0xbau8, 0xa4u8, 0xffu8, 0xffu8]);
    let s3 = PatchSite::call(0x0042_3361, &e3, hooks.get_input, "input observer (replay speed)");
    sites.push(s3);
    sites
}

/// No two edits touch the same byte, so each finds what it expects whatever the others
/// have written.
pub proof fn lemma_edits_disjoint(standalone_patches: Seq<PatchSite>, frame_loop_patches: Seq<PatchSite>, hook_patches: Seq<PatchSite>, hooks: Hooks)
    requires
        are_standalone_patches(standalone_patches),
        are_frame_loop_patches(frame_loop_patches, hooks),
        are_hook_patches(hook_patches, hooks),
    ensures
        patches::disjoint(standalone_patches + frame_loop_patches + hook_patches),
{
}

pub const G_SUPERVISOR: u32 = 0x006c_6d18;

/// Whether the replay word of the game says that a replay plays.
pub fn in_replay(word: u32) -> (res: bool)
    ensures
        res == (word != 0),
{
    word != 0
}

/// The counter value from which the game adds focus to a held shoot button.
pub const AUTO_FOCUS_THRESHOLD: u16 = 8;

/// Reads the held keys during playback.
pub fn replay_keys(state: StageState, input: &ObservedInput) -> (res: Option<HeldKeys>)
    ensures
        res == frame_loop::held_keys(state, input@, AUTO_FOCUS_THRESHOLD),
{
    frame_loop::replay_keys(state, input.get(), AUTO_FOCUS_THRESHOLD)
}

/// Where the configuration's bytes stand.
#[derive(Clone, Copy, Debug, PartialEq, Eq, Structural)]
pub struct CfgAddrs {
    pub windowed: u32,
    pub opts: u32,
    pub frameskip: u32,
    pub color_mode: u32,
}

/// The addresses of the overridden settings.
pub fn cfg_addrs() -> (addrs: CfgAddrs)
    ensures
        addrs == (CfgAddrs {
            windowed: 0x006c_6e4a,
            opts: 0x006c_6e60,
            frameskip: 0x006c_6e4b,
            color_mode: 0x006c_6e46,
        }),
        addrs.windowed == G_SUPERVISOR + 0x114 + 0x1e,
        addrs.opts == G_SUPERVISOR + 0x114 + 0x34,
        addrs.frameskip == G_SUPERVISOR + 0x114 + 0x1f,
        addrs.color_mode == G_SUPERVISOR + 0x114 + 0x1a,
{
    let cfg: u32 = G_SUPERVISOR + 0x114;
    CfgAddrs {
        windowed: cfg + 0x1e,
        opts: cfg + 0x34,
        frameskip: cfg + 0x1f,
        color_mode: cfg + 0x1a,
    }
}

/// What the edits that stand on their own write, and over what.
pub proof fn lemma_standalone_patches(sites: Seq<PatchSite>)
    requires
        are_standalone_patches(sites),
    ensures
        sites.len() == 1,
        sites[0].addr() == 0x41dc58,
        sites[0].expected() == seq![0x1eu8, 0x00u8, 0x07u8, 0x80u8, 0x75u8],
        sites[0].replacement().len() == 5,
        sites[0].replacement()[0] == 0x00,
        sites[0].replacement()[2] == 0x00,
        sites[0].replacement()[3] == 0x00,
        sites[0].replacement()[4] == 0x74,
        sites[0].replacement()[1] == sites[0].expected()[1],
        sites[0].branch_to() is None,
        sites[0].label() == "keyboard re-acquire on any input failure"@,
{
}

/// Where the edits of the frame loop lead and what they are written over.
#[verifier::spinoff_prover]
#[verifier::rlimit(40)]
pub proof fn lemma_frame_loop_patches(sites: Seq<PatchSite>, hooks: Hooks)
    requires
        are_frame_loop_patches(sites, hooks),
    ensures
        sites.len() == 6,
        sites[0].addr() == 0x420bd5,
        sites[0].expected().len() == 5 && sites[0].expected()[0] == 0xe8,
        patches::branch_target(sites[0].addr(), bytes::u32_at(sites[0].expected(), 1)) == 0x43ebac,
        sites[0].replacement()[0] == 0xe8 && sites[0].replacement().len() == 5,
        patches::branch_target(sites[0].addr(), bytes::u32_at(sites[0].replacement(), 1)) == hooks.direct3d_create8,
        sites[0].branch_to() == Some((0xe8u8, hooks.direct3d_create8)),
        sites[0].label() == "Direct3DCreate8 call-site rewrite"@,
        sites[1].addr() == 0x42071a,
        sites[1].expected() == seq![0x0fu8, 0x8fu8, 0xedu8, 0x00u8, 0x00u8, 0x00u8],
        sites[1].replacement()[0] == 0xe9 && sites[1].replacement().len() == 6,
        patches::branch_target(sites[1].addr(), bytes::u32_at(sites[1].replacement(), 1)) == 0x42080d,
        sites[1].branch_to() == Some((0xe9u8, 0x42080du32)),
        sites[1].label() == "draw-before-calc skip"@,
        forall|i: int| 5 <= i < 6 ==> #[trigger] sites[1].replacement()[i] == 0x90,
        sites[2].addr() == 0x420853,
        sites[2].expected().len() == 5 && sites[2].expected()[0] == 0xe8,
        patches::branch_target(sites[2].addr(), bytes::u32_at(sites[2].expected(), 1)) == 0x41ca10,
        sites[2].replacement()[0] == 0xe8 && sites[2].replacement().len() == 5,
        patches::branch_target(sites[2].addr(), bytes::u32_at(sites[2].replacement(), 1)) == hooks.calc_then_draw,
        sites[2].branch_to() == Some((0xe8u8, hooks.calc_then_draw)),
        sites[2].label() == "calc-then-draw reorder"@,
        sites[3].addr() == 0x4208ed,
        sites[3].expected() == seq![0x6au8, 0x01u8, 0xffu8, 0x15u8, 0x50u8, 0xa2u8, 0x46u8, 0x00u8],
        sites[3].replacement()[0] == 0xe9 && sites[3].replacement().len() == 8,
        patches::branch_target(sites[3].addr(), bytes::u32_at(sites[3].replacement(), 1)) == 0x420990,
        sites[3].branch_to() == Some((0xe9u8, 0x420990u32)),
        sites[3].label() == "software frame limiter skip"@,
        forall|i: int| 5 <= i < 8 ==> #[trigger] sites[3].replacement()[i] == 0x90,
        sites[4].addr() == 0x4209a2,
        sites[4].expected() == seq![0x7du8, 0x02u8],
        sites[4].replacement().len() == 2,
        sites[4].replacement()[0] == 0x90,
        sites[4].replacement()[1] == 0x90,
        sites[4].branch_to() is None,
        sites[4].label() == "frameskip catch-up loop skip (windowed)"@,
        sites[5].addr() == 0x4209ff,
        sites[5].expected() == seq![0x7cu8, 0x0au8],
        sites[5].replacement().len() == 2,
        sites[5].replacement()[0] == 0xeb,
        sites[5].replacement()[1] == sites[5].expected()[1],
        sites[5].branch_to() is None,
        sites[5].label() == "frameskip catch-up loop skip (fullscreen)"@,
{
    assert(patches::branch_target(sites[0].addr(), bytes::u32_at(sites[0].expected(), 1)) == 0x43ebac);
    assert(sites[0].replacement()[0] == 0xe8 && sites[0].replacement().len() == 5
        && patches::branch_target(sites[0].addr(), bytes::u32_at(sites[0].replacement(), 1)) == hooks.direct3d_create8) by {
        patches::lemma_branch_bytes(0xe8, 0x420bd5, hooks.direct3d_create8, 5);
    }
    assert(sites[1].replacement()[0] == 0xe9 && sites[1].replacement().len() == 6
        && patches::branch_target(sites[1].addr(), bytes::u32_at(sites[1].replacement(), 1)) == 0x42080d
        && (forall|i: int| 5 <= i < 6 ==> #[trigger] sites[1].replacement()[i] == 0x90)) by {
        patches::lemma_branch_bytes(0xe9, 0x42071a, 0x42080d, 6);
    }
    assert(patches::branch_target(sites[2].addr(), bytes::u32_at(sites[2].expected(), 1)) == 0x41ca10);
    assert(sites[2].replacement()[0] == 0xe8 && sites[2].replacement().len() == 5
        && patches::branch_target(sites[2].addr(), bytes::u32_at(sites[2].replacement(), 1)) == hooks.calc_then_draw) by {
        patches::lemma_branch_bytes(0xe8, 0x420853, hooks.calc_then_draw, 5);
    }
    assert(sites[3].replacement()[0] == 0xe9 && sites[3].replacement().len() == 8
        && patches::branch_target(sites[3].addr(), bytes::u32_at(sites[3].replacement(), 1)) == 0x420990
        && (forall|i: int| 5 <= i < 8 ==> #[trigger] sites[3].replacement()[i] == 0x90)) by {
        patches::lemma_branch_bytes(0xe9, 0x4208ed, 0x420990, 8);
    }
}

/// Each redirected call went to a function of the game, and goes to its hook.
#[verifier::spinoff_prover]
#[verifier::rlimit(40)]
pub proof fn lemma_hook_patches(sites: Seq<PatchSite>, hooks: Hooks)
    requires
        are_hook_patches(sites, hooks),
    ensures
        sites.len() == 4,
        sites[0].addr() == 0x4204ff,
        sites[0].expected().len() == 5 && sites[0].expected()[0] == 0xe8,
        patches::branch_target(sites[0].addr(), bytes::u32_at(sites[0].expected(), 1)) == 0x4206e0,
        sites[0].replacement()[0] == 0xe8 && sites[0].replacement().len() == 5,
        patches::branch_target(sites[0].addr(), bytes::u32_at(sites[0].replacement(), 1)) == hooks.render_gate,
        sites[0].branch_to() == Some((0xe8u8, hooks.render_gate)),
        sites[0].label() == "render gate (inactive sleep)"@,
        sites[1].addr() == 0x420661,
        sites[1].expected().len() == 5 && sites[1].expected()[0] == 0xe8,
        patches::branch_target(sites[1].addr(), bytes::u32_at(sites[1].expected(), 1)) == 0x41e460,
        sites[1].replacement()[0] == 0xe8 && sites[1].replacement().len() == 5,
        patches::branch_target(sites[1].addr(), bytes::u32_at(sites[1].replacement(), 1)) == hooks.cfg_write,
        sites[1].branch_to() == Some((0xe8u8, hooks.cfg_write)),
        sites[1].label() == "config write-back restore"@,
        sites[2].addr() == 0x42040d,
        sites[2].expected().len() == 5 && sites[2].expected()[0] == 0xe8,
        patches::branch_target(sites[2].addr(), bytes::u32_at(sites[2].expected(), 1)) == 0x420e60,
        sites[2].replacement()[0] == 0xe8 && sites[2].replacement().len() == 5,
        patches::branch_target(sites[2].addr(), bytes::u32_at(sites[2].replacement(), 1)) == hooks.init_d3d_rendering,
        sites[2].branch_to() == Some((0xe8u8, hooks.init_d3d_rendering)),
        sites[2].label() == "color depth scope (InitD3dRendering)"@,
        sites[3].addr() == 0x423361,
        sites[3].expected().len() == 5 && sites[3].expected()[0] == 0xe8,
        patches::branch_target(sites[3].addr(), bytes::u32_at(sites[3].expected(), 1)) == 0x41d820,
        sites[3].replacement()[0] == 0xe8 && sites[3].replacement().len() == 5,
        patches::branch_target(sites[3].addr(), bytes::u32_at(sites[3].replacement(), 1)) == hooks.get_input,
        sites[3].branch_to() == Some((0xe8u8, hooks.get_input)),
        sites[3].label() == "input observer (replay speed)"@,
{
    assert(patches::branch_target(sites[0].addr(), bytes::u32_at(sites[0].expected(), 1)) == 0x4206e0);
    assert(sites[0].replacement()[0] == 0xe8 && sites[0].replacement().len() == 5
        && patches::branch_target(sites[0].addr(), bytes::u32_at(sites[0].replacement(), 1)) == hooks.render_gate) by {
        patches::lemma_branch_bytes(0xe8, 0x4204ff, hooks.render_gate, 5);
    }
    assert(patches::branch_target(sites[1].addr(), bytes::u32_at(sites[1].expected(), 1)) == 0x41e460);
    assert(sites[1].replacement()[0] == 0xe8 && sites[1].replacement().len() == 5
        && patches::branch_target(sites[1].addr(), bytes::u32_at(sites[1].replacement(), 1)) == hooks.cfg_write) by {
        patches::lemma_branch_bytes(0xe8, 0x420661, hooks.cfg_write, 5);
    }
    assert(patches::branch_target(sites[2].addr(), bytes::u32_at(sites[2].expected(), 1)) == 0x420e60);
    assert(sites[2].replacement()[0] == 0xe8 && sites[2].replacement().len() == 5
        && patches::branch_target(sites[2].addr(), bytes::u32_at(sites[2].replacement(), 1)) == hooks.init_d3d_rendering) by {
        patches::lemma_branch_bytes(0xe8, 0x42040d, hooks.init_d3d_rendering, 5);
    }
    assert(patches::branch_target(sites[3].addr(), bytes::u32_at(sites[3].expected(), 1)) == 0x41d820);
    assert(sites[3].replacement()[0] == 0xe8 && sites[3].replacement().len() == 5
        && patches::branch_target(sites[3].addr(), bytes::u32_at(sites[3].replacement(), 1)) == hooks.get_input) by {
        patches::lemma_branch_bytes(0xe8, 0x423361, hooks.get_input, 5);
    }
}

/// Drawing before the calculation is skipped by always taking the conditional jump that stood
/// there, and catching up by always taking the one of the fullscreen loop.
pub proof fn lemma_jumps_taken(sites: Seq<PatchSite>, hooks: Hooks)
    requires
        are_frame_loop_patches(sites, hooks),
    ensures
        (sites[1].branch_to()->0).1 == sites[1].addr() + 6 + bytes::u32_at(sites[1].expected(), 2),
        sites[5].replacement() == sites[5].expected().update(0, 0xebu8),
{
    assert(sites[5].replacement() =~= sites[5].expected().update(0, 0xebu8));
}

/// Where the game's supervisor stands, and from when on a held shoot button focuses.
pub proof fn lemma_game_constants()
    ensures
        G_SUPERVISOR == 0x006c_6d18,
        AUTO_FOCUS_THRESHOLD == 8,
{
}

} // verus!
