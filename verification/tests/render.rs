//! The hooks of the render thread, in the order in which a game calls them.

use neopatch_core::config::FramerateCfg;
use neopatch_core::d3d::{
    PresentParameters, D3DERR_DEVICELOST, D3DFMT_A8R8G8B8, D3DFMT_X8R8G8B8, D3DPOOL_DEFAULT,
    D3DPOOL_MANAGED, D3DUSAGE_DYNAMIC, D3D_OK,
};
use neopatch_core::d3d8::shim_policy;
use neopatch_core::d3d9::{AdapterSnapshot, Attempt};
use neopatch_core::ladder::LadderEnd;
use neopatch_core::nonzero::NonZeroUsize;
use neopatch_core::pacer::{Pacer, PacingPolicy, Wait};
use neopatch_core::rates::RefreshRateMode;
use neopatch_core::render::{Bypass, CreatedD3d9, RenderState};
use neopatch_core::replay::{HeldKeys, ReplayMode};

const MAIN: u32 = 7;
const OTHER: u32 = 8;
const D3D9: usize = 0x1000;
const DEVICE: usize = 0x2000;

const FPS: FramerateCfg = FramerateCfg {
    game_fps: 60,
    replay_skip_fps: 240,
    replay_slow_fps: 30,
};

fn end(attempt: Option<Attempt>) -> LadderEnd {
    LadderEnd {
        hr: D3D_OK,
        attempt,
        restore: None,
    }
}

fn windowed() -> Attempt {
    Attempt {
        pp: PresentParameters {
            windowed: 1,
            back_buffer_format: D3DFMT_X8R8G8B8,
            ..Default::default()
        },
        mode: None,
    }
}

fn with_device() -> RenderState {
    let pacer = Pacer::new(PacingPolicy::LiveInput { target_fps: 60 }, 10_000_000, true);
    let mut state = RenderState::new(Some(pacer));
    assert!(matches!(
        state.create_hooked_d3d9_with(MAIN, D3D9, shim_policy()),
        CreatedD3d9::Hooked { .. }
    ));
    let begin = state.hook_create_device(MAIN, D3D9, 0x40).ok().unwrap();
    assert_eq!(begin.flags, 0x44);
    let (done, alive) = state.finish_device(&begin.tok, end(Some(windowed())), DEVICE, None, None);
    assert_eq!((done.hr, done.device), (D3D_OK, DEVICE));
    assert_eq!(alive.unwrap().pin.add_ref, NonZeroUsize::new(DEVICE));
    state
}

#[test]
fn creation_belongs_to_the_first_thread() {
    let mut state = RenderState::new(None);
    assert!(matches!(
        state.create_hooked_d3d9_with(MAIN, 0, shim_policy()),
        CreatedD3d9::Failed
    ));
    assert!(matches!(
        state.create_hooked_d3d9_with(MAIN, D3D9, shim_policy()),
        CreatedD3d9::Hooked { replaced: false, .. }
    ));
    assert!(matches!(
        state.create_hooked_d3d9_with(OTHER, 0x3000, shim_policy()),
        CreatedD3d9::OffThread(_)
    ));
    assert!(matches!(
        state.hook_create_device(OTHER, D3D9, 0),
        Err(Bypass::PassThrough { thread_miss: true })
    ));
    assert!(matches!(
        state.hook_create_device(MAIN, 0x3000, 0),
        Err(Bypass::PassThrough { thread_miss: false })
    ));
    assert!(matches!(
        state.hook_create_device(MAIN, 0, 0),
        Err(Bypass::InvalidCall)
    ));
}

#[test]
fn ladders_follow_the_session() {
    let state = with_device();
    let ctx = state.resolve_ladder(AdapterSnapshot::empty(), RefreshRateMode::Native, true);
    assert!(ctx.policy.upgrade_16bit_back_buffer);
    assert!(ctx.controls_timing);
    let unpaced = RenderState::new(None);
    let ctx = unpaced.resolve_ladder(AdapterSnapshot::empty(), RefreshRateMode::Native, false);
    assert!(!ctx.controls_timing);
}

#[test]
fn presents_are_paced_on_the_game_device() {
    let mut state = with_device();
    assert!(state.hook_present(OTHER, DEVICE, 1_000_000, None, &FPS).is_none());
    assert!(state.hook_present(MAIN, 0x4000, 1_000_000, None, &FPS).is_none());
    let begin = state.hook_present(MAIN, DEVICE, 1_000_000, None, &FPS).unwrap();
    assert_eq!(begin.wait, Some(Wait::Resynced));
    assert!(begin.change.is_none());
    assert!(state.finish_present(D3D_OK).is_none());
    let begin = state.hook_present(MAIN, DEVICE, 1_000_000, None, &FPS).unwrap();
    assert!(matches!(begin.wait, Some(Wait::SleepUntil(_))));
    let change = state.finish_present(D3DERR_DEVICELOST).unwrap();
    assert_eq!((change.hr, change.frame), (D3DERR_DEVICELOST, 2));
    // A change of mode starts the pacing over.
    let skip = Some(HeldKeys { shoot: true, focus: false, skip: false, ctrl: false });
    let begin = state.hook_present(MAIN, DEVICE, 1_000_001, skip, &FPS).unwrap();
    assert!(matches!(begin.change, Some((ReplayMode::Skip, _))));
    assert_eq!(begin.wait, Some(Wait::Resynced));
}

#[test]
fn live_play_leads_and_a_fast_replay_does_not() {
    let mut state = with_device();
    let mut present = |now: i64, keys: Option<HeldKeys>| {
        state.hook_present(MAIN, DEVICE, now, keys, &FPS).unwrap().wait
    };
    let skip = Some(HeldKeys { shoot: true, focus: false, skip: false, ctrl: false });
    let slow = Some(HeldKeys { shoot: false, focus: true, skip: false, ctrl: false });
    // The deadline is 1_166_666; half a period is 83_333.
    assert_eq!(present(1_000_000, None), Some(Wait::Resynced));
    assert_eq!(present(1_000_000, None), Some(Wait::SleepUntil(1_083_333)));
    assert_eq!(present(1_000_001, skip), Some(Wait::Resynced));
    assert_eq!(present(1_000_002, skip), Some(Wait::SleepUntil(1_041_667)));
    assert_eq!(present(1_000_003, slow), Some(Wait::Resynced));
    assert_eq!(present(1_000_004, slow), Some(Wait::SleepUntil(1_333_336)));
    assert_eq!(present(1_000_003, None), Some(Wait::Resynced));
    assert_eq!(present(1_000_004, None), Some(Wait::SleepUntil(1_083_336)));
}

#[test]
fn captures_are_taken_before_the_next_present() {
    let mut state = with_device();
    let pinned = NonZeroUsize::new(DEVICE);
    let _ = state.pending.set_pending_cached_save(pinned, b"shot.bmp".to_vec());
    let begin = state.hook_present(MAIN, DEVICE, 1_000_000, None, &FPS).unwrap();
    assert_eq!(begin.capture, Some(b"shot.bmp".to_vec()));
    let begin = state.hook_present(MAIN, DEVICE, 1_000_000, None, &FPS).unwrap();
    assert_eq!(begin.capture, None);
    // A reset drops what waits.
    let _ = state.pending.set_pending_cached_save(pinned, b"shot.bmp".to_vec());
    let reset = state.hook_reset(MAIN, DEVICE).ok().unwrap();
    assert!(reset.dropped_capture);
    assert!(state.finish_reset(&reset, end(Some(windowed())), None).is_some());
    assert!(state.hook_reset(OTHER, DEVICE).is_err());
}

#[test]
fn resources_are_translated_for_the_game_alone() {
    let state = with_device();
    assert_eq!(
        state.hook_create_texture(DEVICE, D3DPOOL_MANAGED, 0),
        (D3DPOOL_DEFAULT, D3DUSAGE_DYNAMIC)
    );
    assert_eq!(
        state.hook_create_texture(0x4000, D3DPOOL_MANAGED, 0),
        (D3DPOOL_MANAGED, 0)
    );
    assert_eq!(
        state.hook_create_vertex_buffer(DEVICE, D3DPOOL_MANAGED, 8),
        (D3DPOOL_DEFAULT, D3DUSAGE_DYNAMIC | 8)
    );
    assert_eq!(state.hook_check_device_format(D3D9, D3DFMT_A8R8G8B8), D3DFMT_X8R8G8B8);
    assert_eq!(state.hook_check_device_format(0x4000, D3DFMT_A8R8G8B8), D3DFMT_A8R8G8B8);
    assert_eq!(state.format.active_back_buffer_format(), Some(D3DFMT_X8R8G8B8));
}
