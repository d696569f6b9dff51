//! The games: their patch tables, replays, pacing and saved settings.

use neopatch_core::config::{DisplayMode, FramerateCfg};
use neopatch_core::console::{console_hint, hint, CtrlAction, QuitRequest};
use neopatch_core::d3d::{D3DFMT_R5G6B5, D3DFMT_X8R8G8B8, D3DPOOL_DEFAULT, D3DPOOL_MANAGED};
use neopatch_core::d3dx9::{hook_d3dx_create_texture, Entry};
use neopatch_core::dinput8::{
    forward, iid_direct_input8_a, iid_direct_input8_w, set_on_created, system_dinput8_path, Guid,
};
use neopatch_core::frame_loop::{
    draws_after_calc, inactive_sleep, th06_draw_frame, th07_draw_frame, DrawStep, ObservedInput,
    StageState, INPUT_FOCUS, INPUT_SHOOT, INPUT_SKIP, STATE_GAME,
};
use neopatch_core::game_addr::GameAddr;
use neopatch_core::gdi_caps::hook_get_device_caps;
use neopatch_core::loader_sync::{abort_site, drain_loaders, install, Config, DrainTurn};
use neopatch_core::modules::{annotate_addr, in_host_image, label_in_module, read_path, ModuleRange};
use neopatch_core::once::FirstWins;
use neopatch_core::pacer::{qpc_to_100ns, qpc_to_ms, Pacer, PacingPolicy, SleepPlan, Wait};
use neopatch_core::patches::{HostImage, PatchSite};
use neopatch_core::pinned::{
    apply_display_override, cfg_write_hook, enter_rendering_setup, leave_rendering_setup,
    reconcile_cached_back_buffer_format, CfgBytes, PinnedCfg,
};
use neopatch_core::protect::{ActiveWindows, WindowEnd};
use neopatch_core::replay::{
    replay_mode, set_probe, HeldKeys, InputAddr, LayoutDefect, ModeLatch, ProbeStage, ProbeStep,
    ReplayMode, ReplayStateLayout,
};
use neopatch_core::thread::{Claim, MainThread, MainToken};
use neopatch_core::timer_period::{consistent, stub_time_period, wants_stubs};
use neopatch_core::watchdog::{
    gets_full_chain, handle_type_name, lookup_handle_type, lookup_thread_start, snapshot_stuck,
    wait_target, walk_ebp_frames, wants_sample, FrameWalk, Snapshot, Tick, Watchdog,
};
use neopatch_core::{th06, th07, th08, th095, th10};

fn token() -> MainToken {
    match MainThread::new().claim(1) {
        Claim::Claimed(tok) | Claim::Confirmed(tok) => tok,
        Claim::Refused { .. } => panic!("nobody has claimed"),
    }
}

fn spans(groups: &[Vec<PatchSite>]) -> Vec<(u32, u32)> {
    let mut spans: Vec<(u32, u32)> = groups
        .iter()
        .flatten()
        .map(|s| (s.site_addr(), s.site_addr() + s.written_bytes().len() as u32))
        .collect();
    spans.sort_unstable();
    spans
}

fn disjoint(groups: &[Vec<PatchSite>]) -> bool {
    let spans = spans(groups);
    spans.windows(2).all(|w| w[0].1 <= w[1].0)
}

#[test]
fn edits_of_a_game_do_not_overlap() {
    let six = th06::Hooks {
        direct3d_create8: 0x1000,
        calc_then_draw: 0x2000,
        render_gate: 0x3000,
        cfg_write: 0x4000,
        init_d3d_rendering: 0x5000,
        get_input: 0x6000,
    };
    let groups = [
        th06::standalone_patches(),
        th06::frame_loop_patches(&six),
        th06::hook_patches(&six),
    ];
    assert!(disjoint(&groups));
    assert!(spans(&groups).len() > 5);

    let seven = th07::Hooks {
        direct3d_create8: 0x1000,
        calc_then_draw: 0x2000,
        window_update_gate: 0x3000,
        cfg_write: 0x4000,
        init_d3d_rendering: 0x5000,
        get_input: 0x6000,
    };
    assert!(disjoint(&[
        th07::standalone_patches(),
        th07::frame_loop_patches(&seven),
        th07::hook_patches(&seven),
    ]));

    let eight = th08::Hooks {
        direct3d_create8: 0x1000,
        init_d3d_rendering: 0x2000,
        cfg_write: 0x3000,
        get_input: 0x4000,
    };
    assert!(disjoint(&[th08::frame_loop_patches(&eight), th08::hook_patches(&eight)]));

    let ten = th10::Hooks {
        direct3d_create9: 0x1000,
        anm_mode57_z: 0x2000,
        screenshot: 0x3000,
        dialog_box_param_a: 0x4000,
    };
    assert!(disjoint(&[th10::patches(&ten), th10::dialog_patches(&ten)]));
}

#[test]
fn layouts_of_the_games_are_valid() {
    assert_eq!(th095::replay_state().validate(), Ok(()));
    assert_eq!(th10::replay_state().validate(), Ok(()));
    assert_eq!(th10::cfg_file().validate(), Ok(()));
}

fn layout() -> ReplayStateLayout {
    ReplayStateLayout {
        mgr_ptr_addr: 0x100,
        mgr_mode_offset: 0x10,
        viewer_mode: 1,
        input_addr: InputAddr::Indirect(0x200),
        input_shoot_bit: 1,
        input_focus_bit: 4,
        input_skip_bit: 0x100,
    }
}

#[test]
fn layouts_are_checked() {
    let bad = |f: fn(&mut ReplayStateLayout)| {
        let mut l = layout();
        f(&mut l);
        l.validate().unwrap_err()
    };
    assert_eq!(layout().validate(), Ok(()));
    assert_eq!(bad(|l| l.mgr_ptr_addr = 0), LayoutDefect::NullManager);
    assert_eq!(bad(|l| l.mgr_ptr_addr = 2), LayoutDefect::UnalignedManager);
    assert_eq!(bad(|l| l.mgr_mode_offset = 1), LayoutDefect::UnalignedMode);
    assert_eq!(bad(|l| l.input_addr = InputAddr::Direct(0)), LayoutDefect::NullInput);
    assert_eq!(bad(|l| l.input_addr = InputAddr::Direct(3)), LayoutDefect::UnalignedInput);
}

#[test]
fn probes_read_word_by_word() {
    let tok = token();
    let l = layout();
    let (stage, step) = l.read_keys(&tok);
    assert_eq!((stage, step), (ProbeStage::Manager, ProbeStep::Read(0x100)));
    // Outside the replay menu there is no manager.
    assert_eq!(l.advance(stage, 0).1, ProbeStep::Done(None));
    let (stage, step) = l.advance(stage, 0x1000);
    assert_eq!(step, ProbeStep::Read(0x1010));
    assert_eq!(l.advance(stage, 2).1, ProbeStep::Done(None));
    let (stage, step) = l.advance(stage, 1);
    assert_eq!(step, ProbeStep::Read(0x200));
    let (stage, step) = l.advance(stage, 0x2000);
    assert_eq!(step, ProbeStep::Read(0x2000));
    let (_, step) = l.advance(stage, 0x101);
    assert_eq!(
        step,
        ProbeStep::Done(Some(HeldKeys { shoot: true, focus: false, skip: true, ctrl: false }))
    );
}

fn keys(shoot: bool, focus: bool, skip: bool, ctrl: bool) -> Option<HeldKeys> {
    Some(HeldKeys { shoot, focus, skip, ctrl })
}

const FPS: FramerateCfg = FramerateCfg {
    game_fps: 60,
    replay_skip_fps: 240,
    replay_slow_fps: 30,
};

#[test]
fn replay_modes_follow_the_held_keys() {
    assert_eq!(replay_mode(None), ReplayMode::Normal);
    assert_eq!(replay_mode(keys(false, false, false, false)), ReplayMode::Normal);
    assert_eq!(replay_mode(keys(true, false, false, false)), ReplayMode::Skip);
    assert_eq!(replay_mode(keys(false, false, true, false)), ReplayMode::Skip);
    assert_eq!(replay_mode(keys(false, false, false, true)), ReplayMode::Skip);
    assert_eq!(replay_mode(keys(true, true, true, true)), ReplayMode::Slow);

    let tok = token();
    let mut latch = ModeLatch::new();
    assert_eq!(latch.policy_change(&tok, None, &FPS), None);
    assert_eq!(
        latch.policy_change(&tok, keys(true, false, false, false), &FPS),
        Some((ReplayMode::Skip, PacingPolicy::InternalCadence { target_fps: 240 }))
    );
    assert_eq!(latch.policy_change(&tok, keys(true, false, false, false), &FPS), None);
    assert_eq!(
        latch.policy_change(&tok, keys(true, true, false, false), &FPS),
        Some((ReplayMode::Slow, PacingPolicy::InternalCadence { target_fps: 30 }))
    );
    assert_eq!(
        latch.policy_change(&tok, None, &FPS),
        Some((ReplayMode::Normal, PacingPolicy::LiveInput { target_fps: 60 }))
    );
    let mut probe: FirstWins<u32> = FirstWins::new();
    set_probe(&mut probe, 1);
    set_probe(&mut probe, 2);
    assert_eq!(probe.get(), Some(1));
}

#[test]
fn auto_focus_is_not_slow_motion() {
    let state = |counter| StageState {
        requested: STATE_GAME,
        settled: 0,
        in_replay: true,
        conflict_counter: counter,
    };
    let mut input = ObservedInput::new();
    input.record_input((INPUT_SHOOT | INPUT_FOCUS | INPUT_SKIP) as u16);
    let threshold = th06::AUTO_FOCUS_THRESHOLD;
    let before = th06::replay_keys(state(threshold - 1), &input).unwrap();
    assert!(before.shoot && before.focus && before.skip);
    let after = th06::replay_keys(state(threshold), &input).unwrap();
    assert!(after.shoot && !after.focus && after.skip);
    let threshold = th07::AUTO_FOCUS_THRESHOLD;
    assert!(th07::replay_keys(state(threshold - 1), &input).unwrap().focus);
    assert!(!th07::replay_keys(state(threshold), &input).unwrap().focus);
    let outside = StageState { in_replay: false, ..state(0) };
    assert_eq!(th06::replay_keys(outside, &input), None);
    let menu = StageState { requested: 0, ..state(0) };
    assert_eq!(th06::replay_keys(menu, &input), None);
}

#[test]
fn pacing_does_not_drift() {
    let tok = token();
    let freq = 10_000_000;
    let mut pacer = Pacer::new(PacingPolicy::InternalCadence { target_fps: 60 }, freq, true);
    let period = freq / 60;
    assert_eq!(pacer.wait(&tok, 1_000_000), Wait::Resynced);
    let mut deadline = 1_000_000 + period;
    for _ in 0..10 {
        // Frames that arrive late by different amounts wait for exact multiples.
        assert_eq!(pacer.wait(&tok, deadline - 5_000), Wait::SleepUntil(deadline));
        deadline += period;
    }
    assert_eq!(pacer.wait(&tok, deadline + 1), Wait::Late);
    deadline += period;
    // Half a second of nothing starts over.
    assert_eq!(pacer.wait(&tok, deadline + 5_000_000), Wait::Resynced);
}

#[test]
fn live_input_is_read_ahead_of_the_deadline() {
    let tok = token();
    let freq = 10_000_000;
    let mut pacer = Pacer::new(PacingPolicy::LiveInput { target_fps: 50 }, freq, true);
    let period = freq / 50;
    assert_eq!(pacer.wait(&tok, 1_000_000), Wait::Resynced);
    assert_eq!(
        pacer.wait(&tok, 1_000_000),
        Wait::SleepUntil(1_000_000 + period - period / 2)
    );
    pacer.apply_policy(&tok, PacingPolicy::LiveInput { target_fps: 0 });
    assert_eq!(pacer.wait(&tok, 2_000_000), Wait::Unpaced);
}

#[test]
fn sleeps_leave_a_margin_to_spin() {
    let tok = token();
    let freq = 10_000_000;
    let timer = Pacer::new(PacingPolicy::LiveInput { target_fps: 60 }, freq, true);
    assert_eq!(
        timer.sleep_until(&tok, 100_000, 0),
        SleepPlan::Timer { due: -98_000 }
    );
    assert_eq!(timer.sleep_until(&tok, 1_000, 0), SleepPlan::SpinOnly);
    let plain = Pacer::new(PacingPolicy::LiveInput { target_fps: 60 }, freq, false);
    assert_eq!(plain.sleep_until(&tok, 100_000, 0), SleepPlan::Sleep { ms: 9 });
    assert_eq!(qpc_to_ms(100_000, freq), 10);
    assert_eq!(qpc_to_100ns(100_000, freq), 100_000);
}

#[test]
fn overrides_are_undone_when_settings_are_saved() {
    let saved = CfgBytes { windowed: 0, opts: 0x15, frameskip: 2, color_mode: 1 };
    let mut cfg = saved;
    let mut pinned = None;
    apply_display_override(&mut cfg, &mut pinned, Some(DisplayMode::Windowed));
    assert_eq!(cfg, CfgBytes { windowed: 1, opts: 0x11, frameskip: 0, color_mode: 1 });
    let choice = enter_rendering_setup(&mut cfg, pinned);
    assert_eq!(cfg.color_mode, 0);
    leave_rendering_setup(&mut cfg, choice);
    assert_eq!(cfg.color_mode, 1);
    cfg_write_hook(&mut cfg, pinned);
    assert_eq!(cfg, saved);

    // An auto-detected colour mode stays resolved.
    let mut auto = CfgBytes { color_mode: 0xff, ..saved };
    apply_display_override(&mut auto, &mut pinned, None);
    assert_eq!(auto.color_mode, 0);
    // What was pinned first stays pinned.
    assert_eq!(pinned.unwrap().user_windowed, 0);
    // What the game changed itself is kept.
    let mut changed = CfgBytes { windowed: 0, opts: 0x11, frameskip: 1, color_mode: 1 };
    let pin = PinnedCfg {
        user_windowed: 0,
        forced_windowed: 1,
        user_force_16bit: false,
        user_frameskip: 2,
    };
    let before = changed;
    cfg_write_hook(&mut changed, Some(pin));
    assert_eq!(changed, before);
}

#[test]
fn cached_formats_follow_the_device() {
    let mut cached = D3DFMT_R5G6B5;
    assert!(!reconcile_cached_back_buffer_format(&mut cached, None));
    assert!(reconcile_cached_back_buffer_format(&mut cached, Some(D3DFMT_X8R8G8B8)));
    assert_eq!(cached, D3DFMT_X8R8G8B8);
    assert!(!reconcile_cached_back_buffer_format(&mut cached, Some(D3DFMT_X8R8G8B8)));
}

#[test]
fn frames_are_drawn_in_order() {
    assert_eq!(
        th06_draw_frame(0x10, 0),
        vec![
            DrawStep::BeginScene,
            DrawStep::RunDrawChain,
            DrawStep::EndScene,
            DrawStep::UnbindTexture,
        ]
    );
    assert_eq!(th06_draw_frame(0x10, 0x8)[..3], [
        DrawStep::FullViewport,
        DrawStep::Clear,
        DrawStep::SavedViewport,
    ]);
    assert!(th06_draw_frame(0, 0x8).is_empty());
    assert!(th07_draw_frame(0x10, 0).is_empty());
    assert_eq!(th07_draw_frame(0x10, 0x20).len(), 7);
    assert_eq!(th07_draw_frame(0x10, 0x20)[2], DrawStep::ResetFog(0xff));
    assert!(draws_after_calc(1));
    assert!(!draws_after_calc(0));
    assert!(!draws_after_calc(-1));
    assert_eq!(inactive_sleep(1), None);
    assert!(inactive_sleep(0).is_some());
}

fn sync_config() -> Config {
    Config {
        signal_addr: 0x100,
        bgm_handle_addr: 0x104,
        io_handle_addr: 0x108,
        call_site: 0x1000,
        call_bytes: [0xe8, 0, 0, 0, 0],
        real_fn: 0x2000,
        splice_addr: 0x3000,
        splice_expected: [0x90; 7],
    }
}

#[test]
fn loaders_are_drained_once() {
    let mut turn = DrainTurn::new();
    assert!(turn.take());
    assert!(!turn.take());
    let drain = drain_loaders(0, 0x10, 0x20);
    assert_eq!((drain.signal, drain.wait_for), (1, vec![0x10, 0x20]));
    let aborting = drain_loaders(2, 0, 0x20);
    assert_eq!((aborting.signal, aborting.wait_for), (2, vec![0x20]));
    // The barrier goes in only where the splice did.
    assert!(install(&sync_config(), 0x5000, 0x90).is_none());
    let site = install(&sync_config(), 0x5000, 0xe9).unwrap();
    assert_eq!(site.written_bytes(), &[0xe8, 0xfb, 0x3f, 0, 0]);
    assert_eq!(abort_site(&sync_config(), 0x4000).written_bytes()[0], 0xe9);
}

#[test]
fn the_awaited_thread_is_walked() {
    let event: Vec<u16> = "Event".encode_utf16().collect();
    assert_eq!(handle_type_name(Some(&event)).as_deref(), Some("Event"));
    assert_eq!(handle_type_name(None), None);
    let target = wait_target(0x44, true, 12);
    assert_eq!(target.map(|t| t.get()), Some(12));
    assert!(gets_full_chain(12, target));
    assert!(!gets_full_chain(13, target));
    // No handle, a handle of unknown type, and one that is no thread's.
    for nothing in [wait_target(0, true, 12), wait_target(0x44, false, 12), wait_target(0x44, true, 0)] {
        assert_eq!(nothing, None);
        assert!(!gets_full_chain(0, nothing));
    }
}

#[test]
fn replays_show_in_the_games_flags() {
    assert!(th06::in_replay(1) && !th06::in_replay(0));
    assert!(th07::in_replay(8) && th07::in_replay(0xf));
    assert!(!th07::in_replay(7) && !th07::in_replay(0x10));
}

#[test]
fn stuck_frames_are_noticed() {
    let mut dog = Watchdog::new();
    assert_eq!(dog.tick(5), Tick::Alive);
    assert_eq!(dog.tick(5), Tick::Stuck);
    assert_eq!(dog.tick(6), Tick::Alive);
    assert_eq!(snapshot_stuck(0, true), Snapshot::AllHeaders);
    assert_eq!(snapshot_stuck(7, false), Snapshot::Unavailable);
    assert_eq!(snapshot_stuck(7, true), Snapshot::Full);
    assert!(wants_sample(1, 7, 1, 8, 9));
    assert!(!wants_sample(2, 7, 1, 8, 9));
    assert!(!wants_sample(1, 8, 1, 8, 9));
    assert!(!wants_sample(1, 9, 1, 8, 9));
    assert_eq!(lookup_thread_start(0, 4, 0x1000).map(|s| s.get()), Some(0x1000));
    assert_eq!(lookup_thread_start(-1, 4, 0x1000), None);
    assert_eq!(lookup_handle_type(-1, 0, 0x100, 8, 0x10), None);
}

#[test]
fn stacks_are_walked_by_frame_pointers() {
    // Frames at 0x1000, 0x1010 and 0x1020; the last one points nowhere.
    let mut words = vec![0u32; 16];
    words[0] = 0x1010;
    words[1] = 0xaaa0;
    words[4] = 0x1020;
    words[5] = 0xaaa4;
    words[8] = 0;
    words[9] = 0xaaa8;
    assert_eq!(
        walk_ebp_frames(&words, 0x1000, 0x1000, 0x1000),
        vec![0xaaa0, 0xaaa4, 0xaaa8]
    );
    let mut walk = FrameWalk::start(0x1000, 0x1000);
    assert_eq!(walk.pending(), Some(0x1000));
    walk.feed(Some((0x0ff0, 0xaaa0)));
    // A frame that does not lie above the last one ends the walk.
    assert_eq!(walk.pending(), None);
    assert_eq!(walk.into_frames(), vec![0xaaa0]);
}

#[test]
fn quits_are_requested_once() {
    let mut quit = QuitRequest::new();
    assert_eq!(quit.handler(2, 0x10), CtrlAction::Unhandled);
    assert_eq!(quit.handler(0, 0), CtrlAction::FlushUnhandled);
    assert_eq!(quit.handler(1, 0x10), CtrlAction::PostClose);
    assert!(!quit.posted(false));
    assert_eq!(quit.handler(0, 0x10), CtrlAction::PostClose);
    assert!(quit.posted(true));
    assert_eq!(quit.handler(0, 0x10), CtrlAction::Hint);
    assert!(CtrlAction::Hint.is_handled());
    assert!(!CtrlAction::FlushUnhandled.is_handled());
    assert!(hint().ends_with("force-kill\n"));
    assert!(console_hint(0x10, usize::MAX, 2, 2));
    assert!(!console_hint(0, usize::MAX, 2, 2));
    assert!(!console_hint(usize::MAX, usize::MAX, 2, 2));
    assert!(!console_hint(0x10, usize::MAX, 1, 2));
}

#[test]
fn small_hooks_answer_themselves() {
    assert_eq!(hook_get_device_caps(116), Some(60));
    assert_eq!(hook_get_device_caps(8), None);
    assert_eq!(stub_time_period(1), 0);
    assert!(wants_stubs(0));
    assert!(consistent(true, true, true));
    let args = hook_d3dx_create_texture(D3DPOOL_MANAGED, 0);
    assert_eq!((args.pool, args.usage, args.translated), (D3DPOOL_DEFAULT, 0x200, true));
    assert!(!hook_d3dx_create_texture(D3DPOOL_DEFAULT, 0).translated);
    assert_eq!(Entry::CreateTexture.import_name(), "D3DXCreateTexture");
    let mut windows = ActiveWindows::new();
    assert!(!windows.open());
    assert!(windows.open());
    assert!(windows.close(WindowEnd::Written));
    assert!(!windows.close(WindowEnd::NotOpened));
}

#[test]
fn game_words_are_read_back() {
    let mut image = HostImage { base: 0x40_0000, bytes: vec![0; 16] };
    let word: GameAddr<u32> = GameAddr::new(0x40_0004);
    assert!(word.write(&mut image, 0xffff_fffe));
    assert_eq!(word.read(&image), Some(0xffff_fffe));
    let signed: GameAddr<i32> = GameAddr::new(0x40_0004);
    assert_eq!(signed.read_signed(&image), Some(-2));
    let outside: GameAddr<u32> = GameAddr::new(0x40_000e);
    assert_eq!(outside.read(&image), None);
    assert!(!outside.write(&mut image, 1));
    assert_eq!(outside.get(), 0x40_000e);
}

#[test]
fn addresses_are_named_after_their_module() {
    let range = ModuleRange::of_image(0x40_0000, 0x1000);
    assert!(range.contains(0x40_0fff));
    assert!(!range.contains(0x40_1000));
    assert!(range.contains_span(0x40_0ffe, 2));
    assert!(!range.contains_span(0x40_0fff, 2));
    assert!(in_host_image(Some(range), 0x40_0000, 0x1000));
    assert!(!in_host_image(None, 0x40_0000, 1));
    assert_eq!(
        label_in_module(0x40_1234, 0x40_0000, "C:\\games\\th06.exe"),
        "0x00401234 (th06.exe+0x1234)"
    );
    let path: Vec<u16> = "C:\\games\\th06.exe".encode_utf16().collect();
    assert_eq!(
        annotate_addr(0x40_0abc, Some(range), Some(&path)).as_deref(),
        Some("0x00400abc (th06.exe+0xabc)")
    );
    // A module whose name cannot be read is still one.
    assert_eq!(read_path(None), "<unknown>");
    assert_eq!(
        annotate_addr(0x40_0abc, Some(range), Some(&path[..0])).as_deref(),
        Some("0x00400abc (<unknown>+0xabc)")
    );
    assert_eq!(annotate_addr(0x40_0abc, None, Some(&path)), None);
    let null = ModuleRange::of_image(0, 0x1000);
    assert_eq!(annotate_addr(0, Some(null), Some(&path)), None);
}

#[test]
fn the_system_library_is_loaded_by_its_path() {
    let dir: Vec<u16> = "C:\\Windows\\system32".encode_utf16().collect();
    let path = system_dinput8_path(&dir, dir.len() as u32).unwrap();
    assert_eq!(
        String::from_utf16_lossy(&path),
        "C:\\Windows\\system32\\dinput8.dll\0"
    );
    assert_eq!(system_dinput8_path(&dir, 0), None);

    let mut on_created: FirstWins<u32> = FirstWins::new();
    set_on_created(&mut on_created, 5);
    let other = Guid { data1: 1, data2: 2, data3: 3, data4: 4 };
    assert_eq!(forward(&on_created, 0, Some(iid_direct_input8_a()), true), Some(5));
    assert_eq!(forward(&on_created, 0, Some(iid_direct_input8_w()), true), Some(5));
    assert_eq!(forward(&on_created, 0, Some(other), true), None);
    assert_eq!(forward(&on_created, -1, Some(iid_direct_input8_a()), true), None);
    assert_eq!(forward(&on_created, 0, Some(iid_direct_input8_a()), false), None);
    assert_eq!(forward(&on_created, 0, None, true), None);
}

#[test]
fn startup_dialogs_are_answered() {
    let answer = th10::hook_dialog_box_param_a;
    let (id, proc_va) = (th10::DIALOG_TEMPLATE_ID, th10::DIALOG_PROC_VA);
    assert_eq!(
        answer(id, proc_va, DisplayMode::Fullscreen),
        Some(th10::DIALOG_RET_FULLSCREEN)
    );
    assert_eq!(
        answer(id, proc_va, DisplayMode::Windowed),
        Some(th10::DIALOG_RET_WINDOWED)
    );
    assert_eq!(answer(id + 1, proc_va, DisplayMode::Windowed), None);
    assert_eq!(answer(id, proc_va + 1, DisplayMode::Windowed), None);
}

#[test]
fn settings_stand_where_the_games_keep_them() {
    assert_ne!(th06::cfg_addrs().windowed, th06::cfg_addrs().frameskip);
    assert_ne!(th07::cfg_addrs().opts, th07::cfg_addrs().color_mode);
    assert_ne!(th08::cfg_addrs().opts, th08::cfg_addrs().windowed);
}
