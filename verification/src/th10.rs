//! Patches and hooks for th10 v1.00a.

use crate::cfg_pin::{ByteField, CfgCheck, CfgFile};
use crate::cfg_pin;
use crate::config::DisplayMode;
use crate::d3d9_hooks::call_site_rewrite;
use crate::patches::PatchSite;
use crate::bytes;
use crate::patches;
use crate::replay::{InputAddr, ReplayStateLayout};
use vstd::prelude::*;

verus! {

/// The addresses of the functions that the edits branch to.
#[derive(Clone, Copy, Debug, PartialEq, Eq, Structural)]
pub struct Hooks {
    pub direct3d_create9: u32,
    pub anm_mode57_z: u32,
    pub screenshot: u32,
    pub dialog_box_param_a: u32,
}

/// What [`patches`] holds.
pub open spec fn are_patches(sites: Seq<PatchSite>, hooks: Hooks) -> bool {
    &&& sites.len() == 8
    &&& patches::is_branch(
        sites[0],
        patches::OPCODE_CALL,
        0x0043_8bc3,
        seq![0xe8u8, 0xaeu8, 0x95u8, 0x01u8, 0x00u8],
        hooks.direct3d_create9,
        "Direct3DCreate9 call-site rewrite"@,
    )
    &&& patches::is_edit(
        sites[1],
        0x0043_93b7,
        seq![0x0fu8, 0x85u8, 0x6au8, 0x01u8, 0x00u8, 0x00u8],
        seq![0x90u8, 0x90u8, 0x90u8, 0x90u8, 0x90u8, 0x90u8],
        "Sleep-path branch nop"@,
    )
    &&& patches::is_edit(
        sites[2],
        0x0043_93c5,
        seq![0x75u8, 0x22u8],
        seq![0xebu8, 0x22u8],
        "frame limiter unconditional skip"@,
    )
    &&& patches::is_edit(
        sites[3],
        0x0044_343b,
        seq![0xd9u8, 0x80u8, 0x50u8, 0x03u8, 0x00u8, 0x00u8],
        seq![0xd9u8, 0x80u8, 0x54u8, 0x03u8, 0x00u8, 0x00u8],
        "AnmManager mode 2 y -> z"@,
    )
    &&& patches::is_edit(
        sites[4],
        0x0043_98d4,
        seq![0x74u8, 0x11u8],
        seq![0xebu8, 0x11u8],
        "32-bit color skip force-16-bit branch"@,
    )
    &&& patches::is_edit(
        sites[5],
        0x0043_9916,
        seq![0x0fu8, 0x95u8, 0xc1u8],
        seq![0x90u8, 0x90u8, 0x90u8],
        "32-bit color ignore persistent choice"@,
    )
    &&& patches::is_branch(
        sites[6],
        patches::OPCODE_JMP,
        0x0044_438e,
        seq![0x8bu8, 0x9bu8, 0x5cu8, 0x03u8, 0x00u8, 0x00u8],
        hooks.anm_mode57_z,
        "AnmManager mode 5/7 z + matrix.tz"@,
    )
    &&& patches::is_branch(
        sites[7],
        patches::OPCODE_JMP,
        0x0042_0670,
        seq![0x83u8, 0xecu8, 0x0cu8, 0x53u8, 0x55u8],
        hooks.screenshot,
        "screenshot save (fcn.00420670)"@,
    )
}

/// The edits of the game.
pub fn patches(hooks: &Hooks) -> (sites: Vec<PatchSite>)
    ensures
        are_patches(sites@, *hooks),
{
    let mut sites: Vec<PatchSite> = Vec::new();
    let e0: [u8; 5] = [0xe8, 0xae, 0x95, 0x01, 0x00];
    assert(e0@ =~= seq![0xe8u8, 0xaeu8, 0x95u8, 0x01u8, 0x00u8]);
    let s0 = call_site_rewrite(0x0043_8bc3, &e0, hooks.direct3d_create9);
    sites.push(s0);
    let e1: [u8; 6] = [0x0f, 0x85, 0x6a, 0x01, 0x00, 0x00];
    assert(e1@ =~= seq![0x0fu8, 0x85u8, 0x6au8, 0x01u8, 0x00u8, 0x00u8]);
    let s1 = PatchSite::nop(0x0043_93b7, &e1, "Sleep-path branch nop");
    assert(s1.replacement() =~= seq![0x90u8, 0x90u8, 0x90u8, 0x90u8, 0x90u8, 0x90u8]);
    sites.push(s1);
    let e2: [u8; 2] = [0x75, 0x22];
    assert(e2@ =~= seq![0x75u8, 0x22u8]);
    let r2: [u8; 2] = [0xeb, 0x22];
    assert(r2@ =~= seq![0xebu8, 0x22u8]);
    let s2 = PatchSite::replace(0x0043_93c5, &e2, &r2, "frame limiter unconditional skip");
    sites.push(s2);
    let e3: [u8; 6] = [0xd9, 0x80, 0x50, 0x03, 0x00, 0x00];
    assert(e3@ =~= seq![0xd9u8, 0x80u8, 0x50u8, 0x03u8, 0x00u8, 0x00u8]);
    let r3: [u8; 6] = [0xd9, 0x80, 0x54, 0x03, 0x00, 0x00];
    assert(r3@ =~= seq![0xd9u8, 0x80u8, 0x54u8, 0x03u8, 0x00u8, 0x00u8]);
    let s3 = PatchSite::replace(0x0044_343b, &e3, &r3, "AnmManager mode 2 y -> z");
    sites.push(s3);
    let e4: [u8; 2] = [0x74, 0x11];
    assert(e4@ =~= seq![0x74u8, 0x11u8]);
    let r4: [u8; 2] = [0xeb, 0x11];
    assert(r4@ =~= seq![0xebu8, 0x11u8]);
    let s4 = PatchSite::replace(0x0043_98d4, &e4, &r4, "32-bit color skip force-16-bit branch");
    sites.push(s4);
    let e5: [u8; 3] = [0x0f, 0x95, 0xc1];
    assert(e5@ =~= seq![0x0fu8, 0x95u8, 0xc1u8]);
    let s5 = PatchSite::nop(0x0043_9916, &e5, "32-bit color ignore persistent choice");
    assert(s5.replacement() =~= seq![0x90u8, 0x90u8, 0x90u8]);
    sites.push(s5);
    let e6: [u8; 6] = [0x8b, 0x9b, 0x5c, 0x03, 0x00, 0x00];
    assert(e6@ =~= seq![0x8bu8, 0x9bu8, 0x5cu8, 0x03u8, 0x00u8, 0x00u8]);
    let s6 = PatchSite::jmp(0x0044_438e, &e6, hooks.anm_mode57_z, "AnmManager mode 5/7 z + matrix.tz");
    sites.push(s6);
    let e7: [u8; 5] = [0x83, 0xec, 0x0c, 0x53, 0x55];
    assert(e7@ =~= seq![0x83u8, 0xecu8, 0x0cu8, 0x53u8, 0x55u8]);
    let s7 = PatchSite::jmp(0x0042_0670, &e7, hooks.screenshot, "screenshot save (fcn.00420670)");
    sites.push(s7);
    sites
}

/// What [`dialog_patches`] holds.
pub open spec fn are_dialog_patches(sites: Seq<PatchSite>, hooks: Hooks) -> bool {
    &&& sites.len() == 2
    &&& patches::is_edit(
        sites[0],
        0x0043_8b7b,
        seq![0x74u8, 0x21u8],
        seq![0x90u8, 0x90u8],
        "force dialog gate open"@,
    )
    &&& patches::is_branch(
        sites[1],
        patches::OPCODE_CALL,
        0x0043_8b8c,
        seq![0xffu8, 0x15u8, 0x64u8, 0x62u8, 0x46u8, 0x00u8],
        hooks.dialog_box_param_a,
        "DialogBoxParamA call-site rewrite"@,
    )
}

/// The edits that open the way to the startup dialog and answer it.
pub fn dialog_patches(hooks: &Hooks) -> (sites: Vec<PatchSite>)
    ensures
        are_dialog_patches(sites@, *hooks),
{
    let mut sites: Vec<PatchSite> = Vec::new();
    let e0: [u8; 2] = [0x74, 0x21];
    assert(e0@ =~= seq![0x74u8, 0x21u8]);
    let s0 = PatchSite::nop(0x0043_8b7b, &e0, "force dialog gate open");
    assert(s0.replacement() =~= seq![0x90u8, 0x90u8]);
    sites.push(s0);
    let e1: [u8; 6] = [0xff, 0x15, 0x64, 0x62, 0x46, 0x00];
    assert(e1@ =~= seq![0xffu8, 0x15u8, 0x64u8, 0x62u8, 0x46u8, 0x00u8]);
    let s1 = PatchSite::call(0x0043_8b8c, &e1, hooks.dialog_box_param_a, "DialogBoxParamA call-site rewrite");
    sites.push(s1);
    sites
}

/// No two edits touch the same byte, so each finds what it expects whatever the others
/// have written.
pub proof fn lemma_edits_disjoint(patches: Seq<PatchSite>, dialog_patches: Seq<PatchSite>, hooks: Hooks)
    requires
        are_patches(patches, hooks),
        are_dialog_patches(dialog_patches, hooks),
    ensures
        patches::disjoint(patches + dialog_patches),
{
}

/// The configuration file's format.
pub fn cfg_file() -> (file: CfgFile)
    ensures
        file.wf(),
        file.file_name@ == "th10.cfg"@,
        file.magic == 0x0010_0003,
        file.size == 0x34,
        file.frameskip == (ByteField { offset: 0x1e, bound: 3 }),
        file.other_checks@ == seq![
            CfgCheck::ByteMax { offset: 0x1a, bound: 2 },
            CfgCheck::ByteMax { offset: 0x1b, bound: 3 },
            CfgCheck::ByteMax { offset: 0x1c, bound: 2 },
            CfgCheck::ByteMax { offset: 0x1d, bound: 2 },
            CfgCheck::ByteMax { offset: 0x1f, bound: 3 },
        ],
{
    let mut other_checks: Vec<CfgCheck> = Vec::new();
    other_checks.push(CfgCheck::byte_max(0x1a, 2));
    other_checks.push(CfgCheck::byte_max(0x1b, 3));
    other_checks.push(CfgCheck::byte_max(0x1c, 2));
    other_checks.push(CfgCheck::byte_max(0x1d, 2));
    other_checks.push(CfgCheck::byte_max(0x1f, 3));
    proof {
        reveal_with_fuel(cfg_pin::first_outside, 6);
    }
    CfgFile {
        file_name: "th10.cfg",
        magic: 0x0010_0003,
        size: 0x34,
        frameskip: ByteField { offset: 0x1e, bound: 3 },
        other_checks,
    }
}

/// The layout of the replay state.
pub fn replay_state() -> (layout: ReplayStateLayout)
    ensures
        layout.defect() is None,
        layout == (ReplayStateLayout {
            mgr_ptr_addr: 0x0047_7838,
            mgr_mode_offset: 16,
            viewer_mode: 1,
            input_addr: InputAddr::Direct(0x0047_4e30),
            input_shoot_bit: 0x1,
            input_focus_bit: 0x4,
            input_skip_bit: 0x100,
        }),
{
    ReplayStateLayout {
        mgr_ptr_addr: 0x0047_7838,
        mgr_mode_offset: 16,
        viewer_mode: 1,
        input_addr: InputAddr::Direct(0x0047_4e30),
        input_shoot_bit: 0x1,
        input_focus_bit: 0x4,
        input_skip_bit: 0x100,
    }
}

/// The startup dialog, and what it returns for each mode.
pub const DIALOG_TEMPLATE_ID: usize = 0xcb;

pub const DIALOG_PROC_VA: usize = 0x0043_a3a0;

pub const DIALOG_RET_FULLSCREEN: isize = 6;

pub const DIALOG_RET_WINDOWED: isize = 7;

/// The answer to the startup dialog, or `None` to show any other dialog.
pub fn hook_dialog_box_param_a(template_id: usize, proc_va: usize, mode: DisplayMode) -> (res:
    Option<isize>)
    ensures
        res == (if template_id != DIALOG_TEMPLATE_ID || proc_va != DIALOG_PROC_VA {
            None
        } else {
            match mode {
                DisplayMode::Windowed => Some(DIALOG_RET_WINDOWED),
                DisplayMode::Fullscreen => Some(DIALOG_RET_FULLSCREEN),
            }
        }),
{
    if template_id != DIALOG_TEMPLATE_ID || proc_va != DIALOG_PROC_VA {
        return None;
    }
    match mode {
        DisplayMode::Windowed => Some(DIALOG_RET_WINDOWED),
        DisplayMode::Fullscreen => Some(DIALOG_RET_FULLSCREEN),
    }
}

/// Where the edits of the game lead and what they are written over.
#[verifier::spinoff_prover]
#[verifier::rlimit(40)]
pub proof fn lemma_patches(sites: Seq<PatchSite>, hooks: Hooks)
    requires
        are_patches(sites, hooks),
    ensures
        sites.len() == 8,
        sites[0].addr() == 0x438bc3,
        sites[0].expected().len() == 5 && sites[0].expected()[0] == 0xe8,
        patches::branch_target(sites[0].addr(), bytes::u32_at(sites[0].expected(), 1)) == 0x452176,
        sites[0].replacement()[0] == 0xe8 && sites[0].replacement().len() == 5,
        patches::branch_target(sites[0].addr(), bytes::u32_at(sites[0].replacement(), 1)) == hooks.direct3d_create9,
        sites[0].branch_to() == Some((0xe8u8, hooks.direct3d_create9)),
        sites[0].label() == "Direct3DCreate9 call-site rewrite"@,
        sites[1].addr() == 0x4393b7,
        sites[1].expected() == seq![0x0fu8, 0x85u8, 0x6au8, 0x01u8, 0x00u8, 0x00u8],
        sites[1].replacement().len() == 6,
        sites[1].replacement()[0] == 0x90,
        sites[1].replacement()[1] == 0x90,
        sites[1].replacement()[2] == 0x90,
        sites[1].replacement()[3] == 0x90,
        sites[1].replacement()[4] == 0x90,
        sites[1].replacement()[5] == 0x90,
        sites[1].branch_to() is None,
        sites[1].label() == "Sleep-path branch nop"@,
        sites[2].addr() == 0x4393c5,
        sites[2].expected() == seq![0x75u8, 0x22u8],
        sites[2].replacement().len() == 2,
        sites[2].replacement()[0] == 0xeb,
        sites[2].replacement()[1] == sites[2].expected()[1],
        sites[2].branch_to() is None,
        sites[2].label() == "frame limiter unconditional skip"@,
        sites[3].addr() == 0x44343b,
        sites[3].expected() == seq![0xd9u8, 0x80u8, 0x50u8, 0x03u8, 0x00u8, 0x00u8],
        sites[3].replacement().len() == 6,
        sites[3].replacement()[2] == 0x54,
        sites[3].replacement()[0] == sites[3].expected()[0],
        sites[3].replacement()[1] == sites[3].expected()[1],
        sites[3].replacement()[3] == sites[3].expected()[3],
        sites[3].replacement()[4] == sites[3].expected()[4],
        sites[3].replacement()[5] == sites[3].expected()[5],
        sites[3].branch_to() is None,
        sites[3].label() == "AnmManager mode 2 y -> z"@,
        sites[4].addr() == 0x4398d4,
        sites[4].expected() == seq![0x74u8, 0x11u8],
        sites[4].replacement().len() == 2,
        sites[4].replacement()[0] == 0xeb,
        sites[4].replacement()[1] == sites[4].expected()[1],
        sites[4].branch_to() is None,
        sites[4].label() == "32-bit color skip force-16-bit branch"@,
        sites[5].addr() == 0x439916,
        sites[5].expected() == seq![0x0fu8, 0x95u8, 0xc1u8],
        sites[5].replacement().len() == 3,
        sites[5].replacement()[0] == 0x90,
        sites[5].replacement()[1] == 0x90,
        sites[5].replacement()[2] == 0x90,
        sites[5].branch_to() is None,
        sites[5].label() == "32-bit color ignore persistent choice"@,
        sites[6].addr() == 0x44438e,
        sites[6].expected() == seq![0x8bu8, 0x9bu8, 0x5cu8, 0x03u8, 0x00u8, 0x00u8],
        sites[6].replacement()[0] == 0xe9 && sites[6].replacement().len() == 6,
        patches::branch_target(sites[6].addr(), bytes::u32_at(sites[6].replacement(), 1)) == hooks.anm_mode57_z,
        sites[6].branch_to() == Some((0xe9u8, hooks.anm_mode57_z)),
        sites[6].label() == "AnmManager mode 5/7 z + matrix.tz"@,
        forall|i: int| 5 <= i < 6 ==> #[trigger] sites[6].replacement()[i] == 0x90,
        sites[7].addr() == 0x420670,
        sites[7].expected() == seq![0x83u8, 0xecu8, 0x0cu8, 0x53u8, 0x55u8],
        sites[7].replacement()[0] == 0xe9 && sites[7].replacement().len() == 5,
        patches::branch_target(sites[7].addr(), bytes::u32_at(sites[7].replacement(), 1)) == hooks.screenshot,
        sites[7].branch_to() == Some((0xe9u8, hooks.screenshot)),
        sites[7].label() == "screenshot save (fcn.00420670)"@,
{
    assert(patches::branch_target(sites[0].addr(), bytes::u32_at(sites[0].expected(), 1)) == 0x452176);
    assert(sites[0].replacement()[0] == 0xe8 && sites[0].replacement().len() == 5
        && patches::branch_target(sites[0].addr(), bytes::u32_at(sites[0].replacement(), 1)) == hooks.direct3d_create9) by {
        patches::lemma_branch_bytes(0xe8, 0x438bc3, hooks.direct3d_create9, 5);
    }
    assert(sites[6].replacement()[0] == 0xe9 && sites[6].replacement().len() == 6
        && patches::branch_target(sites[6].addr(), bytes::u32_at(sites[6].replacement(), 1)) == hooks.anm_mode57_z
        && (forall|i: int| 5 <= i < 6 ==> #[trigger] sites[6].replacement()[i] == 0x90)) by {
        patches::lemma_branch_bytes(0xe9, 0x44438e, hooks.anm_mode57_z, 6);
    }
    assert(sites[7].replacement()[0] == 0xe9 && sites[7].replacement().len() == 5
        && patches::branch_target(sites[7].addr(), bytes::u32_at(sites[7].replacement(), 1)) == hooks.screenshot) by {
        patches::lemma_branch_bytes(0xe9, 0x420670, hooks.screenshot, 5);
    }
}

/// The way to the startup dialog is open, and it is answered by its hook.
#[verifier::spinoff_prover]
#[verifier::rlimit(40)]
pub proof fn lemma_dialog_patches(sites: Seq<PatchSite>, hooks: Hooks)
    requires
        are_dialog_patches(sites, hooks),
    ensures
        sites.len() == 2,
        sites[0].addr() == 0x438b7b,
        sites[0].expected() == seq![0x74u8, 0x21u8],
        sites[0].replacement().len() == 2,
        sites[0].replacement()[0] == 0x90,
        sites[0].replacement()[1] == 0x90,
        sites[0].branch_to() is None,
        sites[0].label() == "force dialog gate open"@,
        sites[1].addr() == 0x438b8c,
        sites[1].expected() == seq![0xffu8, 0x15u8, 0x64u8, 0x62u8, 0x46u8, 0x00u8],
        sites[1].replacement()[0] == 0xe8 && sites[1].replacement().len() == 6,
        patches::branch_target(sites[1].addr(), bytes::u32_at(sites[1].replacement(), 1)) == hooks.dialog_box_param_a,
        sites[1].branch_to() == Some((0xe8u8, hooks.dialog_box_param_a)),
        sites[1].label() == "DialogBoxParamA call-site rewrite"@,
        forall|i: int| 5 <= i < 6 ==> #[trigger] sites[1].replacement()[i] == 0x90,
{
    assert(sites[1].replacement()[0] == 0xe8 && sites[1].replacement().len() == 6
        && patches::branch_target(sites[1].addr(), bytes::u32_at(sites[1].replacement(), 1)) == hooks.dialog_box_param_a
        && (forall|i: int| 5 <= i < 6 ==> #[trigger] sites[1].replacement()[i] == 0x90)) by {
        patches::lemma_branch_bytes(0xe8, 0x438b8c, hooks.dialog_box_param_a, 6);
    }
}

/// The startup dialog, and its answers.
pub proof fn lemma_dialog()
    ensures
        DIALOG_TEMPLATE_ID == 203,
        DIALOG_PROC_VA == 0x0043_a3a0,
        DIALOG_RET_FULLSCREEN == 6,
        DIALOG_RET_WINDOWED == 7,
{
}

} // verus!
