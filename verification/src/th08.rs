//! Patches and hooks for th08 v1.00d.

use crate::d3d8::call_site_rewrite;
use crate::patches::PatchSite;
use crate::bytes;
use crate::patches;
use vstd::prelude::*;

verus! {

/// The addresses of the functions that the edits branch to.
#[derive(Clone, Copy, Debug, PartialEq, Eq, Structural)]
pub struct Hooks {
    pub direct3d_create8: u32,
    pub init_d3d_rendering: u32,
    pub cfg_write: u32,
    pub get_input: u32,
}

/// What [`frame_loop_patches`] holds.
pub open spec fn are_frame_loop_patches(sites: Seq<PatchSite>, hooks: Hooks) -> bool {
    &&& sites.len() == 2
    &&& patches::is_branch(
        sites[0],
        patches::OPCODE_CALL,
        0x0044_2208,
        seq![0xe8u8, 0xdfu8, 0x4au8, 0x03u8, 0x00u8],
        hooks.direct3d_create8,
        "Direct3DCreate8 call-site rewrite"@,
    )
    &&& patches::is_branch(
        sites[1],
        patches::OPCODE_JMP,
        0x0044_1ecf,
        seq![0x0fu8, 0x8au8, 0x6fu8, 0x01u8, 0x00u8, 0x00u8],
        0x0044_1efc,
        "software frame limiter skip"@,
    )
}

/// The edits of the frame loop.
pub fn frame_loop_patches(hooks: &Hooks) -> (sites: Vec<PatchSite>)
    ensures
        are_frame_loop_patches(sites@, *hooks),
{
    let mut sites: Vec<PatchSite> = Vec::new();
    let e0: [u8; 5] = [0xe8, 0xdf, 0x4a, 0x03, 0x00];
    assert(e0@ =~= seq![0xe8u8, 0xdfu8, 0x4au8, 0x03u8, 0x00u8]);
    let s0 = call_site_rewrite(0x0044_2208, &e0, hooks.direct3d_create8);
    sites.push(s0);
    let e1: [u8; 6] = [0x0f, 0x8a, 0x6f, 0x01, 0x00, 0x00];
    assert(e1@ =~= seq![0x0fu8, 0x8au8, 0x6fu8, 0x01u8, 0x00u8, 0x00u8]);
    let s1 = PatchSite::jmp(0x0044_1ecf, &e1, 0x0044_1efc, "software frame limiter skip");
    sites.push(s1);
    sites
}

/// What [`hook_patches`] holds.
pub open spec fn are_hook_patches(sites: Seq<PatchSite>, hooks: Hooks) -> bool {
    &&& sites.len() == 4
    &&& patches::is_branch(
        sites[0],
        patches::OPCODE_CALL,
        0x0044_19a7,
        seq![0xe8u8, 0x14u8, 0x0bu8, 0x00u8, 0x00u8],
        hooks.init_d3d_rendering,
        "display and color depth scope (InitD3dRendering)"@,
    )
    &&& patches::is_branch(
        sites[1],
        patches::OPCODE_CALL,
        0x0044_1d4f,
        seq![0xe8u8, 0x9cu8, 0xcbu8, 0xffu8, 0xffu8],
        hooks.cfg_write,
        "config write-back restore"@,
    )
    &&& patches::is_branch(
        sites[2],
        patches::OPCODE_CALL,
        0x0044_55f0,
        seq![0xe8u8, 0x7bu8, 0x83u8, 0xffu8, 0xffu8],
        hooks.get_input,
        "input observer (live)"@,
    )
    &&& patches::is_branch(
        sites[3],
        patches::OPCODE_CALL,
        0x0044_566c,
        seq![0xe8u8, 0xffu8, 0x82u8, 0xffu8, 0xffu8],
        hooks.get_input,
        "input observer (replay)"@,
    )
}

/// The call sites that are redirected to hooks.
pub fn hook_patches(hooks: &Hooks) -> (sites: Vec<PatchSite>)
    ensures
        are_hook_patches(sites@, *hooks),
{
    let mut sites: Vec<PatchSite> = Vec::new();
    let e0: [u8; 5] = [0xe8, 0x14, 0x0b, 0x00, 0x00];
    assert(e0@ =~= seq![0xe8u8, 0x14u8, 0x0bu8, 0x00u8, 0x00u8]);
    let s0 = PatchSite::call(0x0044_19a7, &e0, hooks.init_d3d_rendering, "display and color depth scope (InitD3dRendering)");
    sites.push(s0);
    let e1: [u8; 5] = [0xe8, 0x9c, 0xcb, 0xff, 0xff];
    assert(e1@ =~= seq![0xe8u8, 0x9cu8, 0xcbu8, 0xffu8, 0xffu8]);
    let s1 = PatchSite::call(0x0044_1d4f, &e1, hooks.cfg_write, "config write-back restore");
    sites.push(s1);
    let e2: [u8; 5] = [0xe8, 0x7b, 0x83, 0xff, 0xff];
    assert(e2@ =~= seq![0xe8u8, 0x7bu8, 0x83u8, 0xffu8, 0xffu8]);
    let s2 = PatchSite::call(0x0044_55f0, &e2, hooks.get_input, "input observer (live)");
    sites.push(s2);
    let e3: [u8; 5] = [0xe8, 0xff, 0x82, 0xff, 0xff];
    assert(e3@ =~= seq![0xe8u8, 0xffu8, 0x82u8, 0xffu8, 0xffu8]);
    let s3 = PatchSite::call(0x0044_566c, &e3, hooks.get_input, "input observer (replay)");
    sites.push(s3);
    sites
}

/// No two edits touch the same byte, so each finds what it expects whatever the others
/// have written.
pub proof fn lemma_edits_disjoint(frame_loop_patches: Seq<PatchSite>, hook_patches: Seq<PatchSite>, hooks: Hooks)
    requires
        are_frame_loop_patches(frame_loop_patches, hooks),
        are_hook_patches(hook_patches, hooks),
    ensures
        patches::disjoint(frame_loop_patches + hook_patches),
{
}

pub const G_ENGINE: u32 = 0x017c_e758;

/// Where the configuration's bytes stand.
#[derive(Clone, Copy, Debug, PartialEq, Eq, Structural)]
pub struct CfgAddrs {
    pub windowed: u32,
    pub opts: u32,
    pub frameskip: u32,
    pub color_mode: u32,
}

/// The addresses of the overridden settings.
pub fn cfg_addrs() -> (addrs: CfgAddrs)
    ensures
        addrs == (CfgAddrs {
            windowed: 0x017c_e892,
            opts: 0x017c_e8a8,
            frameskip: 0x017c_e893,
            color_mode: 0x017c_e88e,
        }),
        addrs.windowed == G_ENGINE + 0x118 + 0x22,
        addrs.opts == G_ENGINE + 0x118 + 0x38,
        addrs.frameskip == G_ENGINE + 0x118 + 0x23,
        addrs.color_mode == G_ENGINE + 0x118 + 0x1e,
{
    let cfg: u32 = G_ENGINE + 0x118;
    CfgAddrs {
        windowed: cfg + 0x22,
        opts: cfg + 0x38,
        frameskip: cfg + 0x23,
        color_mode: cfg + 0x1e,
    }
}

/// Where the edits of the frame loop lead and what they are written over.
#[verifier::spinoff_prover]
#[verifier::rlimit(40)]
pub proof fn lemma_frame_loop_patches(sites: Seq<PatchSite>, hooks: Hooks)
    requires
        are_frame_loop_patches(sites, hooks),
    ensures
        sites.len() == 2,
        sites[0].addr() == 0x442208,
        sites[0].expected().len() == 5 && sites[0].expected()[0] == 0xe8,
        patches::branch_target(sites[0].addr(), bytes::u32_at(sites[0].expected(), 1)) == 0x476cec,
        sites[0].replacement()[0] == 0xe8 && sites[0].replacement().len() == 5,
        patches::branch_target(sites[0].addr(), bytes::u32_at(sites[0].replacement(), 1)) == hooks.direct3d_create8,
        sites[0].branch_to() == Some((0xe8u8, hooks.direct3d_create8)),
        sites[0].label() == "Direct3DCreate8 call-site rewrite"@,
        sites[1].addr() == 0x441ecf,
        sites[1].expected() == seq![0x0fu8, 0x8au8, 0x6fu8, 0x01u8, 0x00u8, 0x00u8],
        sites[1].replacement()[0] == 0xe9 && sites[1].replacement().len() == 6,
        patches::branch_target(sites[1].addr(), bytes::u32_at(sites[1].replacement(), 1)) == 0x441efc,
        sites[1].branch_to() == Some((0xe9u8, 0x441efcu32)),
        sites[1].label() == "software frame limiter skip"@,
        forall|i: int| 5 <= i < 6 ==> #[trigger] sites[1].replacement()[i] == 0x90,
{
    assert(patches::branch_target(sites[0].addr(), bytes::u32_at(sites[0].expected(), 1)) == 0x476cec);
    assert(sites[0].replacement()[0] == 0xe8 && sites[0].replacement().len() == 5
        && patches::branch_target(sites[0].addr(), bytes::u32_at(sites[0].replacement(), 1)) == hooks.direct3d_create8) by {
        patches::lemma_branch_bytes(0xe8, 0x442208, hooks.direct3d_create8, 5);
    }
    assert(sites[1].replacement()[0] == 0xe9 && sites[1].replacement().len() == 6
        && patches::branch_target(sites[1].addr(), bytes::u32_at(sites[1].replacement(), 1)) == 0x441efc
        && (forall|i: int| 5 <= i < 6 ==> #[trigger] sites[1].replacement()[i] == 0x90)) by {
        patches::lemma_branch_bytes(0xe9, 0x441ecf, 0x441efc, 6);
    }
}

/// Each redirected call went to a function of the game, and goes to its hook.
#[verifier::spinoff_prover]
#[verifier::rlimit(40)]
pub proof fn lemma_hook_patches(sites: Seq<PatchSite>, hooks: Hooks)
    requires
        are_hook_patches(sites, hooks),
    ensures
        sites.len() == 4,
        sites[0].addr() == 0x4419a7,
        sites[0].expected().len() == 5 && sites[0].expected()[0] == 0xe8,
        patches::branch_target(sites[0].addr(), bytes::u32_at(sites[0].expected(), 1)) == 0x4424c0,
        sites[0].replacement()[0] == 0xe8 && sites[0].replacement().len() == 5,
        patches::branch_target(sites[0].addr(), bytes::u32_at(sites[0].replacement(), 1)) == hooks.init_d3d_rendering,
        sites[0].branch_to() == Some((0xe8u8, hooks.init_d3d_rendering)),
        sites[0].label() == "display and color depth scope (InitD3dRendering)"@,
        sites[1].addr() == 0x441d4f,
        sites[1].expected().len() == 5 && sites[1].expected()[0] == 0xe8,
        patches::branch_target(sites[1].addr(), bytes::u32_at(sites[1].expected(), 1)) == 0x43e8f0,
        sites[1].replacement()[0] == 0xe8 && sites[1].replacement().len() == 5,
        patches::branch_target(sites[1].addr(), bytes::u32_at(sites[1].replacement(), 1)) == hooks.cfg_write,
        sites[1].branch_to() == Some((0xe8u8, hooks.cfg_write)),
        sites[1].label() == "config write-back restore"@,
        sites[2].addr() == 0x4455f0,
        sites[2].expected().len() == 5 && sites[2].expected()[0] == 0xe8,
        patches::branch_target(sites[2].addr(), bytes::u32_at(sites[2].expected(), 1)) == 0x43d970,
        sites[2].replacement()[0] == 0xe8 && sites[2].replacement().len() == 5,
        patches::branch_target(sites[2].addr(), bytes::u32_at(sites[2].replacement(), 1)) == hooks.get_input,
        sites[2].branch_to() == Some((0xe8u8, hooks.get_input)),
        sites[2].label() == "input observer (live)"@,
        sites[3].addr() == 0x44566c,
        sites[3].expected().len() == 5 && sites[3].expected()[0] == 0xe8,
        patches::branch_target(sites[3].addr(), bytes::u32_at(sites[3].expected(), 1)) == 0x43d970,
        sites[3].replacement()[0] == 0xe8 && sites[3].replacement().len() == 5,
        patches::branch_target(sites[3].addr(), bytes::u32_at(sites[3].replacement(), 1)) == hooks.get_input,
        sites[3].branch_to() == Some((0xe8u8, hooks.get_input)),
        sites[3].label() == "input observer (replay)"@,
{
    assert(patches::branch_target(sites[0].addr(), bytes::u32_at(sites[0].expected(), 1)) == 0x4424c0);
    assert(sites[0].replacement()[0] == 0xe8 && sites[0].replacement().len() == 5
        && patches::branch_target(sites[0].addr(), bytes::u32_at(sites[0].replacement(), 1)) == hooks.init_d3d_rendering) by {
        patches::lemma_branch_bytes(0xe8, 0x4419a7, hooks.init_d3d_rendering, 5);
    }
    assert(patches::branch_target(sites[1].addr(), bytes::u32_at(sites[1].expected(), 1)) == 0x43e8f0);
    assert(sites[1].replacement()[0] == 0xe8 && sites[1].replacement().len() == 5
        && patches::branch_target(sites[1].addr(), bytes::u32_at(sites[1].replacement(), 1)) == hooks.cfg_write) by {
        patches::lemma_branch_bytes(0xe8, 0x441d4f, hooks.cfg_write, 5);
    }
    assert(patches::branch_target(sites[2].addr(), bytes::u32_at(sites[2].expected(), 1)) == 0x43d970);
    assert(sites[2].replacement()[0] == 0xe8 && sites[2].replacement().len() == 5
        && patches::branch_target(sites[2].addr(), bytes::u32_at(sites[2].replacement(), 1)) == hooks.get_input) by {
        patches::lemma_branch_bytes(0xe8, 0x4455f0, hooks.get_input, 5);
    }
    assert(patches::branch_target(sites[3].addr(), bytes::u32_at(sites[3].expected(), 1)) == 0x43d970);
    assert(sites[3].replacement()[0] == 0xe8 && sites[3].replacement().len() == 5
        && patches::branch_target(sites[3].addr(), bytes::u32_at(sites[3].replacement(), 1)) == hooks.get_input) by {
        patches::lemma_branch_bytes(0xe8, 0x44566c, hooks.get_input, 5);
    }
}

/// Live play and replays read their input through the same function of the game, and both are
/// observed by the same hook.
pub proof fn lemma_inputs_observed(sites: Seq<PatchSite>, hooks: Hooks)
    requires
        are_hook_patches(sites, hooks),
    ensures
        patches::branch_target(sites[2].addr(), bytes::u32_at(sites[2].expected(), 1))
            == patches::branch_target(sites[3].addr(), bytes::u32_at(sites[3].expected(), 1)),
        sites[2].branch_to() == sites[3].branch_to(),
{
    lemma_hook_patches(sites, hooks);
}

/// Where the game's engine stands.
pub proof fn lemma_game_constants()
    ensures
        G_ENGINE == 0x017c_e758,
{
}

} // verus!
