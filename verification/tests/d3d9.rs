//! Devices: present parameters, refresh rates, and the attempts of a creation.

use neopatch_core::d3d::{
    is_ok, DisplayModeEx, Format, HResult, PresentParameters, D3DCREATE_MULTITHREADED,
    D3DDISPLAYMODEEX_SIZE, D3DERR_DEVICEHUNG, D3DERR_DEVICELOST, D3DERR_DEVICEREMOVED,
    D3DERR_INVALIDCALL, D3DERR_OUTOFVIDEOMEMORY, D3DFMT_A1R5G5B5, D3DFMT_A8R8G8B8, D3DFMT_R5G6B5,
    D3DFMT_X1R5G5B5, D3DFMT_X8R8G8B8, D3DPOOL_DEFAULT, D3DPOOL_MANAGED, D3DPOOL_SCRATCH,
    D3DPOOL_SYSTEMMEM, D3DPRESENTFLAG_DISCARD_DEPTHSTENCIL, D3DPRESENTFLAG_LOCKABLE_BACKBUFFER,
    D3DPRESENT_INTERVAL_IMMEDIATE, D3DPRESENT_INTERVAL_ONE, D3DSCANLINEORDERING_PROGRESSIVE,
    D3DSWAPEFFECT_DISCARD, D3DUSAGE_DYNAMIC, D3DUSAGE_WRITEONLY, D3D_OK,
};
use neopatch_core::d3d9::{
    build_display_mode_ex, checked_adapter_format, exclusive_suspect_degraded,
    finish_create_device, format_plan, is_transient_device_error, materialize, plan_attempts,
    resource_request, rewrite_behavior_flags, rewrite_present_params_impl, translate_managed_pool,
    upgraded_back_buffer_format, wants_mode_check, win32_current_refresh_rate, AdapterSamples,
    AdapterSnapshot, Attempt, BackBufferFormat, CaptureQuery, FixSet, LadderCtx, PresentLog,
    PresentPolicy, RateTable, Round, SessionPolicy,
};
use neopatch_core::d3d9_hooks::format_name;
use neopatch_core::ladder::{run_fix_ladder, Ladder, LadderCall, LadderStep};
use neopatch_core::nonzero::NonZeroU32;
use neopatch_core::rates::{
    check_fixed_rate, enumerate_supported_rates, is_real_refresh_rate, native_rate,
    normalize_reported_rate, select_refresh_rate, FixedRateCheck, RateScan, RefreshRateMode,
    MAX_ENUM_RATES,
};

fn policy(keep_lockable_back_buffer: bool) -> PresentPolicy {
    PresentPolicy {
        keep_lockable_back_buffer,
        upgrade_16bit_back_buffer: false,
    }
}

fn upgrading() -> PresentPolicy {
    PresentPolicy {
        keep_lockable_back_buffer: false,
        upgrade_16bit_back_buffer: true,
    }
}

#[test]
fn upgraded_back_buffer_format_16bit_only() {
    assert_eq!(
        upgraded_back_buffer_format(D3DFMT_R5G6B5),
        Some(D3DFMT_X8R8G8B8)
    );
    assert_eq!(
        upgraded_back_buffer_format(D3DFMT_X1R5G5B5),
        Some(D3DFMT_X8R8G8B8)
    );
    assert_eq!(
        upgraded_back_buffer_format(D3DFMT_A1R5G5B5),
        Some(D3DFMT_A8R8G8B8)
    );
    assert_eq!(upgraded_back_buffer_format(D3DFMT_X8R8G8B8), None);
    assert_eq!(upgraded_back_buffer_format(D3DFMT_A8R8G8B8), None);
}

#[test]
fn back_buffer_upgrade_depends_on_policy() {
    for (requested, upgraded) in [
        (D3DFMT_R5G6B5, D3DFMT_X8R8G8B8),
        (D3DFMT_X1R5G5B5, D3DFMT_X8R8G8B8),
        // This is a windowed format, so the `A8R8G8B8` fullscreen rule below doesn't also fire.
        (D3DFMT_A1R5G5B5, D3DFMT_A8R8G8B8),
    ] {
        let base = PresentParameters {
            back_buffer_format: requested,
            windowed: 1,
            ..Default::default()
        };

        let mut off = base;
        rewrite_present_params_impl(&mut off, policy(false), false);
        assert_eq!(off.back_buffer_format, requested);

        let mut on = base;
        rewrite_present_params_impl(&mut on, upgrading(), false);
        assert_eq!(on.back_buffer_format, upgraded);
    }

    let mut pp = PresentParameters {
        back_buffer_format: D3DFMT_A1R5G5B5,
        windowed: 0,
        ..Default::default()
    };
    rewrite_present_params_impl(&mut pp, upgrading(), false);
    assert_eq!(pp.back_buffer_format, D3DFMT_X8R8G8B8);
}

fn nz(n: u32) -> NonZeroU32 {
    NonZeroU32::new(n).unwrap()
}

#[test]
fn rewrite_present_params_interval() {
    for original in [
        0u32,
        D3DPRESENT_INTERVAL_ONE,
        D3DPRESENT_INTERVAL_IMMEDIATE,
    ] {
        let base = PresentParameters {
            presentation_interval: original,
            ..Default::default()
        };

        // When the pacer controls timing, any interval becomes IMMEDIATE so `Present` never blocks.
        let mut paced = base;
        rewrite_present_params_impl(&mut paced, policy(false), true);
        assert_eq!(
            paced.presentation_interval,
            D3DPRESENT_INTERVAL_IMMEDIATE,
            "input interval {original:#x}",
        );

        // Otherwise, the game's own choice stands untouched.
        let mut unpaced = base;
        rewrite_present_params_impl(&mut unpaced, policy(false), false);
        assert_eq!(
            unpaced.presentation_interval, original,
            "input interval {original:#x}",
        );
    }
}

#[test]
fn rewrite_present_params_lockable_back_buffer() {
    let mut pp = PresentParameters {
        flags: D3DPRESENTFLAG_LOCKABLE_BACKBUFFER,
        ..Default::default()
    };
    rewrite_present_params_impl(&mut pp, policy(false), true);
    assert_eq!(pp.flags, 0);

    let mut pp = PresentParameters {
        flags: D3DPRESENTFLAG_LOCKABLE_BACKBUFFER | D3DPRESENTFLAG_DISCARD_DEPTHSTENCIL,
        ..Default::default()
    };
    rewrite_present_params_impl(&mut pp, policy(false), true);
    assert_eq!(pp.flags, D3DPRESENTFLAG_DISCARD_DEPTHSTENCIL);

    let mut pp = PresentParameters {
        flags: D3DPRESENTFLAG_LOCKABLE_BACKBUFFER,
        ..Default::default()
    };
    rewrite_present_params_impl(&mut pp, policy(true), true);
    assert_eq!(pp.flags, D3DPRESENTFLAG_LOCKABLE_BACKBUFFER);
}

#[test]
fn rewrite_present_params_preserves_other_fields() {
    // Locks in the current contract of only touching interval, lockable flag, and back buffer format.
    // TODO: The FLIPEX-direct backlog item will modify `swap_effect` and `back_buffer_count` here, so this test should be updated.
    let baseline = PresentParameters {
        back_buffer_width: 1280,
        back_buffer_height: 960,
        back_buffer_format: D3DFMT_X8R8G8B8,
        back_buffer_count: 1,
        swap_effect: D3DSWAPEFFECT_DISCARD,
        windowed: 1,
        enable_auto_depth_stencil: 1,
        auto_depth_stencil_format: D3DFMT_X8R8G8B8,
        refresh_rate: 144,
        ..Default::default()
    };
    let mut pp = baseline;
    rewrite_present_params_impl(&mut pp, policy(false), true);
    assert_eq!(pp.back_buffer_width, baseline.back_buffer_width);
    assert_eq!(pp.back_buffer_height, baseline.back_buffer_height);
    assert_eq!(pp.back_buffer_format, baseline.back_buffer_format);
    assert_eq!(pp.back_buffer_count, baseline.back_buffer_count);
    assert_eq!(pp.swap_effect, baseline.swap_effect);
    assert_eq!(pp.windowed, baseline.windowed);
    assert_eq!(pp.enable_auto_depth_stencil, baseline.enable_auto_depth_stencil);
    assert_eq!(pp.auto_depth_stencil_format, baseline.auto_depth_stencil_format);
    assert_eq!(
        pp.refresh_rate,
        baseline.refresh_rate,
    );
}

#[test]
fn rewrite_present_params_substitutes_only_fullscreen_a8r8g8b8() {
    let cases = &[
        // A8R8G8B8 is a valid windowed back buffer but an invalid fullscreen adapter format.
        (D3DFMT_A8R8G8B8, true, D3DFMT_A8R8G8B8),
        (D3DFMT_A8R8G8B8, false, D3DFMT_X8R8G8B8),
        // X8R8G8B8 is passed through.
        (D3DFMT_X8R8G8B8, true, D3DFMT_X8R8G8B8),
        (D3DFMT_X8R8G8B8, false, D3DFMT_X8R8G8B8),
        // 16-bit formats are passed through.
        (D3DFMT_R5G6B5, true, D3DFMT_R5G6B5),
        (D3DFMT_R5G6B5, false, D3DFMT_R5G6B5),
        (D3DFMT_X1R5G5B5, true, D3DFMT_X1R5G5B5),
        (D3DFMT_A1R5G5B5, false, D3DFMT_A1R5G5B5),
    ];
    for &(src, windowed, expected) in cases {
        let mut pp = PresentParameters {
            back_buffer_format: src,
            windowed: i32::from(windowed),
            ..Default::default()
        };
        rewrite_present_params_impl(&mut pp, policy(false), true);
        assert_eq!(
            pp.back_buffer_format, expected,
            "src={src:?} windowed={windowed}",
        );
    }
}

#[test]
fn translate_managed_pool_translation() {
    let mut pool = D3DPOOL_MANAGED;
    let mut usage = 0;
    assert!(translate_managed_pool(&mut pool, &mut usage));
    assert_eq!(pool, D3DPOOL_DEFAULT);
    assert_eq!(usage, D3DUSAGE_DYNAMIC);

    let mut pool = D3DPOOL_MANAGED;
    let mut usage = D3DUSAGE_WRITEONLY;
    assert!(translate_managed_pool(&mut pool, &mut usage));
    assert_eq!(pool, D3DPOOL_DEFAULT);
    assert_eq!(
        usage,
        D3DUSAGE_DYNAMIC | D3DUSAGE_WRITEONLY,
    );

    for pool_in in [D3DPOOL_DEFAULT, D3DPOOL_SYSTEMMEM, D3DPOOL_SCRATCH] {
        let mut pool = pool_in;
        let mut usage = 0;
        assert!(!translate_managed_pool(&mut pool, &mut usage));
        assert_eq!(pool, pool_in);
        assert_eq!(usage, 0);
    }
}

#[test]
fn rewrite_behavior_flags_adds_multithreaded() {
    let mt = D3DCREATE_MULTITHREADED;
    let game_flags = 0x40;
    let out = rewrite_behavior_flags(game_flags);
    assert_eq!(out & mt, mt);
    assert_eq!(out & !mt, game_flags);
    assert_eq!(rewrite_behavior_flags(out), out);
}

#[test]
fn build_display_mode_ex_derive_fields_from_pp() {
    let pp = PresentParameters {
        back_buffer_width: 1280,
        back_buffer_height: 960,
        back_buffer_format: D3DFMT_X8R8G8B8,
        refresh_rate: 120,
        ..Default::default()
    };
    let mode = build_display_mode_ex(&pp);
    assert_eq!(mode.size, D3DDISPLAYMODEEX_SIZE);
    assert_eq!(mode.width, pp.back_buffer_width);
    assert_eq!(mode.height, pp.back_buffer_height);
    assert_eq!(mode.format, pp.back_buffer_format);
    assert_eq!(mode.refresh_rate, pp.refresh_rate);
    assert_eq!(mode.scan_line_ordering, D3DSCANLINEORDERING_PROGRESSIVE);
}

fn fixes(rate_override: bool, format_upgrade: bool) -> FixSet {
    FixSet {
        rate_override,
        format_upgrade,
    }
}

fn snapshot(
    desktop_hz: Option<u32>,
    desktop_rate: u32,
    rates: &[(Format, &[u32])],
) -> AdapterSnapshot {
    let mut snap = AdapterSnapshot::empty();
    snap.desktop_mode = desktop_hz.map(|hz| DisplayModeEx {
        size: D3DDISPLAYMODEEX_SIZE,
        width: 0,
        height: 0,
        refresh_rate: hz,
        format: 0,
        scan_line_ordering: 0,
    });
    snap.desktop_rate = desktop_rate;
    for (format, list) in rates {
        snap.tables.push(RateTable {
            format: *format,
            rates: list.to_vec(),
        });
    }
    snap
}

fn fs_pp(format: Format, hz: u32) -> PresentParameters {
    PresentParameters {
        back_buffer_width: 640,
        back_buffer_height: 480,
        back_buffer_format: format,
        windowed: 0,
        refresh_rate: hz,
        ..Default::default()
    }
}

fn ctx(
    snapshot: AdapterSnapshot,
    policy: PresentPolicy,
    controls_timing: bool,
    refresh_mode: RefreshRateMode,
    consumes_display_mode: bool,
) -> LadderCtx {
    LadderCtx {
        snapshot,
        policy,
        controls_timing,
        refresh_mode,
        consumes_display_mode,
    }
}

fn round(format_upgrade: bool) -> Round {
    Round {
        primary: fixes(true, format_upgrade),
        rollback: fixes(false, format_upgrade),
    }
}

#[test]
fn plan_attempts_sequences() {
    // Shim policy
    for escalatable in [false, true] {
        assert_eq!(plan_attempts(true, escalatable), [Some(round(true)), None]);
    }

    // Direct policy + 16-bit request
    assert_eq!(
        plan_attempts(false, true),
        [Some(round(false)), Some(round(true))],
    );

    // Direct policy, nothing to escalate to
    assert_eq!(plan_attempts(false, false), [Some(round(false)), None]);
}

#[test]
fn materialize_mode_agreement() {
    let snap = snapshot(Some(120), 120, &[(D3DFMT_X8R8G8B8, &[60, 120])]);
    let c = ctx(snap, policy(false), true, RefreshRateMode::Native, true);
    let att = materialize(&fs_pp(D3DFMT_X8R8G8B8, 0), fixes(true, false), &c);
    let mode = att.mode.expect("fullscreen materializes a display mode");
    assert_eq!(mode.width, att.pp.back_buffer_width);
    assert_eq!(mode.height, att.pp.back_buffer_height);
    assert_eq!(mode.format, att.pp.back_buffer_format);
    assert_eq!(mode.refresh_rate, att.pp.refresh_rate);
    assert_eq!(att.pp.refresh_rate, 120);

    let windowed = PresentParameters {
        windowed: 1,
        ..fs_pp(D3DFMT_X8R8G8B8, 0)
    };
    let att = materialize(&windowed, fixes(true, false), &c);
    assert!(att.mode.is_none());
    assert_eq!(att.pp.refresh_rate, 0);
}

#[test]
fn materialize_rate_pipeline() {
    let mk = |hz, controls_timing, mode| {
        let snap = snapshot(Some(144), 144, &[(D3DFMT_X8R8G8B8, &[60, 120, 144])]);
        let c = ctx(snap, policy(false), controls_timing, mode, true);
        materialize(&fs_pp(D3DFMT_X8R8G8B8, hz), fixes(true, false), &c)
            .pp
            .refresh_rate
    };

    // With the pacer, the configured mode overrides the game's rate.
    assert_eq!(mk(60, true, RefreshRateMode::Native), 144);
    assert_eq!(mk(60, true, RefreshRateMode::NativeMultiple), 120);
    assert_eq!(mk(60, true, RefreshRateMode::Fixed(nz(120))), 120);
    // A `Fixed` target below 2 is a magic value; the display mode resolves it with the `Native` pick.
    assert_eq!(mk(0, true, RefreshRateMode::Fixed(nz(1))), 144);
    // Without the pacer, a real game rate passes through untouched.
    assert_eq!(mk(75, false, RefreshRateMode::Fixed(nz(120))), 75);
    // However, a magic value is still resolved for the display mode.
    assert_eq!(mk(0, false, RefreshRateMode::Fixed(nz(120))), 144);
}

#[test]
fn materialize_rates_follow_materialized_format() {
    // The 16-bit and upgraded formats advertise different mode sets; each attempt consults its own format's table.
    let snap = snapshot(
        Some(144),
        144,
        &[(D3DFMT_R5G6B5, &[60]), (D3DFMT_X8R8G8B8, &[60, 144])],
    );
    let requested = fs_pp(D3DFMT_R5G6B5, 0);
    let c = ctx(snap, policy(false), true, RefreshRateMode::Native, true);
    let plain = materialize(&requested, fixes(true, false), &c);
    assert_eq!(plain.pp.back_buffer_format, D3DFMT_R5G6B5);
    assert_eq!(plain.pp.refresh_rate, 60);
    let upgraded = materialize(&requested, fixes(true, true), &c);
    assert_eq!(upgraded.pp.back_buffer_format, D3DFMT_X8R8G8B8);
    assert_eq!(upgraded.pp.refresh_rate, 144);
}

#[test]
fn materialize_rollback_rate_resolution() {
    let mk = |hz, consumes| {
        let snap = snapshot(Some(59), 60, &[(D3DFMT_X8R8G8B8, &[60, 120])]);
        let c = ctx(
            snap,
            policy(false),
            true,
            RefreshRateMode::Native,
            consumes,
        );
        materialize(&fs_pp(D3DFMT_X8R8G8B8, hz), fixes(false, false), &c)
    };

    // A real game rate rolls back to itself.
    assert_eq!(mk(120, true).pp.refresh_rate, 120);
    // A magic value resolves to the sampled desktop rate where the Ex display mode must carry a real one.
    let att = mk(0, true);
    assert_eq!(att.pp.refresh_rate, 59);
    assert_eq!(att.mode.unwrap().refresh_rate, 59);
    // However, plain `Reset` keeps the game's raw value, since there `pp` is the whole request.
    assert_eq!(mk(0, false).pp.refresh_rate, 0);

    let no_desktop = snapshot(None, 60, &[(D3DFMT_X8R8G8B8, &[120])]);
    let c = ctx(
        no_desktop,
        policy(false),
        true,
        RefreshRateMode::Native,
        true,
    );
    let att = materialize(&fs_pp(D3DFMT_X8R8G8B8, 0), fixes(false, false), &c);
    assert_eq!(att.pp.refresh_rate, 60);
}

#[test]
fn materialize_shim_policy_changes() {
    let shim = PresentPolicy {
        keep_lockable_back_buffer: true,
        upgrade_16bit_back_buffer: true,
    };
    let snap = snapshot(Some(60), 60, &[(D3DFMT_X8R8G8B8, &[60])]);
    let requested = PresentParameters {
        flags: D3DPRESENTFLAG_LOCKABLE_BACKBUFFER,
        ..fs_pp(D3DFMT_R5G6B5, 0)
    };
    let first = plan_attempts(true, true)[0].unwrap().primary;
    let c = ctx(snap, shim, true, RefreshRateMode::Native, true);
    let att = materialize(&requested, first, &c);
    assert_eq!(att.pp.back_buffer_format, D3DFMT_X8R8G8B8);
    assert_eq!(att.pp.flags, D3DPRESENTFLAG_LOCKABLE_BACKBUFFER);
    assert_eq!(
        att.pp.presentation_interval,
        D3DPRESENT_INTERVAL_IMMEDIATE,
    );
}

struct Run {
    hr: HResult,
    /// Per call: the slot index, the caller-struct contents at call time, and the display mode handed over.
    calls: Vec<(u32, PresentParameters, Option<DisplayModeEx>)>,
    /// The caller struct after the ladder finished.
    final_pp: PresentParameters,
    attempt: Option<Attempt>,
}

fn run_ladder(
    requested: PresentParameters,
    c: &LadderCtx,
    script: &[HResult],
    write_back: Option<u32>,
) -> Run {
    let mut pp = requested;
    let mut calls = Vec::new();
    let (mut ladder, mut call) = Ladder::start(Some(requested), c);
    loop {
        let attempt = call.attempt.unwrap();
        pp = attempt.pp;
        let hr = script[calls.len()];
        calls.push((call.slot, pp, attempt.mode));
        // Simulated runtime write-back into the caller's struct on success.
        if let (true, Some(marker)) = (is_ok(hr), write_back) {
            pp.back_buffer_count = marker;
        }
        match ladder.advance(c, hr) {
            LadderStep::Call(next) => call = next,
            LadderStep::Done(end) => {
                let run = run_fix_ladder(Some(requested), c, script).unwrap();
                assert_eq!(run.end, end);
                assert_eq!(run.calls.len(), calls.len());
                return Run {
                    hr: end.hr,
                    calls,
                    final_pp: end.restore.unwrap_or(pp),
                    attempt: end.attempt,
                };
            }
        }
    }
}

#[test]
fn ladder_success_first_try_keeps_write_back() {
    let snap = snapshot(Some(120), 120, &[(D3DFMT_X8R8G8B8, &[60, 120])]);
    let run = run_ladder(
        fs_pp(D3DFMT_X8R8G8B8, 0),
        &ctx(snap, policy(false), true, RefreshRateMode::Native, true),
        &[D3D_OK],
        Some(7),
    );
    assert!(is_ok(run.hr));
    assert_eq!(run.calls.len(), 1);
    assert_eq!(run.calls[0].0, 0);
    assert_eq!(run.calls[0].1.refresh_rate, 120);
    assert_eq!(run.final_pp.back_buffer_count, 7);
    assert_eq!(run.attempt.unwrap().pp.refresh_rate, 120);
}

#[test]
fn ladder_rollback_after_refused_override() {
    let snap = snapshot(Some(59), 59, &[(D3DFMT_X8R8G8B8, &[60, 120])]);
    let run = run_ladder(
        fs_pp(D3DFMT_X8R8G8B8, 0),
        &ctx(
            snap,
            policy(false),
            true,
            RefreshRateMode::Fixed(nz(120)),
            true,
        ),
        &[D3DERR_INVALIDCALL, D3D_OK],
        None,
    );
    assert!(is_ok(run.hr));
    assert_eq!(run.calls.len(), 2);
    assert_eq!(
        (run.calls[0].0, run.calls[0].1.refresh_rate),
        (0, 120)
    );
    assert_eq!(
        (run.calls[1].0, run.calls[1].1.refresh_rate),
        (1, 59)
    );
    assert_eq!(run.calls[1].2.unwrap().refresh_rate, 59);
}

#[test]
fn ladder_rollback_skipped_when_rate_unchanged() {
    let snap = snapshot(Some(60), 60, &[(D3DFMT_X8R8G8B8, &[60])]);
    let run = run_ladder(
        fs_pp(D3DFMT_X8R8G8B8, 60),
        &ctx(snap, policy(false), true, RefreshRateMode::Native, true),
        &[D3DERR_INVALIDCALL],
        None,
    );
    assert_eq!(run.hr, D3DERR_INVALIDCALL);
    assert_eq!(run.calls.len(), 1);
    assert_eq!(run.final_pp.presentation_interval, 0);
    assert_eq!(run.final_pp.refresh_rate, 60);
}

#[test]
fn ladder_redundant_rollback_still_retries() {
    let snap = snapshot(Some(60), 60, &[(D3DFMT_X8R8G8B8, &[60])]);
    let run = run_ladder(
        fs_pp(D3DFMT_X8R8G8B8, 0),
        &ctx(snap, policy(false), true, RefreshRateMode::Native, true),
        &[D3DERR_INVALIDCALL, D3DERR_INVALIDCALL],
        None,
    );
    assert_eq!(run.calls.len(), 2);
    assert_eq!(run.calls[0].1.refresh_rate, 60);
    assert_eq!(run.calls[1].1.refresh_rate, 60);
    assert_eq!(run.final_pp.refresh_rate, 0);
}

#[test]
fn ladder_transient_stops_everything() {
    let snap = snapshot(
        Some(120),
        120,
        &[(D3DFMT_R5G6B5, &[60]), (D3DFMT_X8R8G8B8, &[60, 120])],
    );
    let c = ctx(snap, policy(false), true, RefreshRateMode::Native, true);
    let run = run_ladder(fs_pp(D3DFMT_R5G6B5, 0), &c, &[D3DERR_DEVICELOST], None);
    assert_eq!(run.hr, D3DERR_DEVICELOST);
    assert_eq!(run.calls.len(), 1);

    let run = run_ladder(
        fs_pp(D3DFMT_R5G6B5, 0),
        &c,
        &[D3DERR_INVALIDCALL, D3DERR_DEVICELOST],
        None,
    );
    assert_eq!(run.hr, D3DERR_DEVICELOST);
    assert_eq!(run.calls.len(), 2);
}

#[test]
fn ladder_full_escalation_rederives_from_the_request() {
    let snap = snapshot(
        Some(120),
        120,
        &[(D3DFMT_R5G6B5, &[60]), (D3DFMT_X8R8G8B8, &[60, 120])],
    );
    let run = run_ladder(
        fs_pp(D3DFMT_R5G6B5, 0),
        &ctx(snap, policy(false), true, RefreshRateMode::Native, true),
        &[D3DERR_INVALIDCALL; 4],
        None,
    );
    assert_eq!(run.hr, D3DERR_INVALIDCALL);
    let seen: Vec<_> = run
        .calls
        .iter()
        .map(|(slot, pp, _)| (*slot, pp.back_buffer_format, pp.refresh_rate))
        .collect();
    assert_eq!(
        seen,
        vec![
            (0, D3DFMT_R5G6B5, 60),
            (1, D3DFMT_R5G6B5, 120),
            (2, D3DFMT_X8R8G8B8, 120),
            (3, D3DFMT_X8R8G8B8, 120),
        ],
    );
    assert_eq!(run.final_pp.back_buffer_format, D3DFMT_R5G6B5);
    assert_eq!(run.final_pp.refresh_rate, 0);
}

#[test]
fn ladder_windowed_escalation_skips_rollbacks() {
    // windowed: no display mode, so no rate rollback; a refused 16-bit request still escalates to 32-bit.
    let windowed = PresentParameters {
        back_buffer_format: D3DFMT_R5G6B5,
        windowed: 1,
        ..Default::default()
    };
    let snap = AdapterSnapshot::empty();
    let run = run_ladder(
        windowed,
        &ctx(snap, policy(false), true, RefreshRateMode::Native, true),
        &[D3DERR_INVALIDCALL, D3DERR_INVALIDCALL],
        None,
    );
    assert_eq!(run.calls.len(), 2);
    assert_eq!(
        (run.calls[0].0, run.calls[0].1.back_buffer_format),
        (0, D3DFMT_R5G6B5)
    );
    assert_eq!(
        (run.calls[1].0, run.calls[1].1.back_buffer_format),
        (2, D3DFMT_X8R8G8B8)
    );
    assert!(run.calls[1].2.is_none());
    assert_eq!(run.final_pp.back_buffer_format, D3DFMT_R5G6B5);
}

#[test]
fn ladder_null_pp_single_bare_call() {
    let snap = AdapterSnapshot::empty();
    let c = ctx(snap, policy(false), true, RefreshRateMode::Native, true);
    let run = run_fix_ladder(None, &c, &[D3DERR_INVALIDCALL]).unwrap();
    assert_eq!(run.end.hr, D3DERR_INVALIDCALL);
    assert!(run.end.attempt.is_none());
    assert_eq!(run.calls, vec![LadderCall { slot: 0, attempt: None }]);
}

#[test]
fn format_name_known_and_unknown() {
    assert_eq!(format_name(D3DFMT_X8R8G8B8), "D3DFMT_X8R8G8B8");
    assert_eq!(format_name(D3DFMT_A8R8G8B8), "D3DFMT_A8R8G8B8");
    assert_eq!(format_name(D3DFMT_R5G6B5), "D3DFMT_R5G6B5");
    assert_eq!(format_name(0), "D3DFMT_UNKNOWN");
    assert_eq!(format_name(9999), "?");
}

#[test]
fn is_real_refresh_rate_rejects_magic_values() {
    assert!(!is_real_refresh_rate(0));
    assert!(!is_real_refresh_rate(1));
    assert!(is_real_refresh_rate(2));
    assert!(is_real_refresh_rate(60));
    assert!(is_real_refresh_rate(144));
}

#[test]
fn select_refresh_rate_without_advertised_modes() {
    for rate in [0u32, 30, 59, 60, 100, 144, 240] {
        assert_eq!(
            select_refresh_rate(RefreshRateMode::Native, &[], rate),
            rate
        );
        assert_eq!(
            select_refresh_rate(RefreshRateMode::NativeMultiple, &[], rate),
            rate,
        );
    }

    assert_eq!(
        select_refresh_rate(RefreshRateMode::Fixed(nz(144)), &[], 60),
        144,
    );
    assert_eq!(
        select_refresh_rate(RefreshRateMode::Fixed(nz(60)), &[], 999_999),
        60,
    );
}

#[test]
fn select_refresh_rate_picks_from_advertised_modes() {
    // (mode, advertised rates, desktop rate, expected pick)
    let cases: &[(RefreshRateMode, &[u32], u32, u32)] = &[
        (RefreshRateMode::Native, &[60, 120, 144], 144, 144),
        (RefreshRateMode::Native, &[60, 100], 144, 100),
        (RefreshRateMode::Native, &[144, 60, 120], 120, 120),
        (RefreshRateMode::Native, &[60, 80], 70, 60),
        (RefreshRateMode::Native, &[100, 120], 60, 100),
        (RefreshRateMode::Native, &[120, 144], 60, 120),
        (RefreshRateMode::NativeMultiple, &[60, 120, 144], 144, 120),
        (RefreshRateMode::NativeMultiple, &[60, 120], 60, 60),
        (RefreshRateMode::NativeMultiple, &[60, 120], 120, 120),
        (RefreshRateMode::NativeMultiple, &[60], 144, 60),
        (RefreshRateMode::NativeMultiple, &[50, 75], 75, 75),
        (RefreshRateMode::NativeMultiple, &[50, 75], 60, 50),
        (RefreshRateMode::NativeMultiple, &[120, 144], 60, 120),
        (RefreshRateMode::NativeMultiple, &[119, 143], 144, 119),
        (RefreshRateMode::Native, &[119, 143], 144, 143),
        (RefreshRateMode::Fixed(nz(120)), &[60, 120], 60, 120),
        (RefreshRateMode::Fixed(nz(120)), &[119, 120], 120, 120),
        (RefreshRateMode::Fixed(nz(120)), &[119], 119, 119),
        (RefreshRateMode::Fixed(nz(240)), &[60, 120], 120, 240),
    ];

    for &(mode, supported, desktop, expected) in cases {
        assert_eq!(
            select_refresh_rate(mode, supported, desktop),
            expected,
            "{mode:?} supported={supported:?} desktop={desktop}",
        );
    }
}

#[test]
fn normalize_reported_rate_rounding() {
    assert_eq!(normalize_reported_rate(59), 60);
    assert_eq!(normalize_reported_rate(119), 120);
    assert_eq!(normalize_reported_rate(143), 144);
    assert_eq!(normalize_reported_rate(179), 180);
    assert_eq!(normalize_reported_rate(239), 240);
    assert_eq!(normalize_reported_rate(299), 300);
    assert_eq!(normalize_reported_rate(359), 360);
    for rate in [0u32, 1, 30, 50, 60, 75, 100, 120, 144, 240] {
        assert_eq!(normalize_reported_rate(rate), rate);
    }
}

#[test]
fn transient_device_errors() {
    for hr in [
        D3DERR_DEVICELOST,
        D3DERR_DEVICEREMOVED,
        D3DERR_DEVICEHUNG,
        D3DERR_OUTOFVIDEOMEMORY,
    ] {
        assert!(is_transient_device_error(hr), "{hr:#x}");
    }
    assert!(!is_transient_device_error(D3DERR_INVALIDCALL));
    assert!(!is_transient_device_error(D3D_OK));
}

fn mode(width: u32, height: u32, refresh_rate: u32) -> Option<DisplayModeEx> {
    Some(DisplayModeEx {
        size: D3DDISPLAYMODEEX_SIZE,
        width,
        height,
        refresh_rate,
        format: D3DFMT_X8R8G8B8,
        scan_line_ordering: D3DSCANLINEORDERING_PROGRESSIVE,
    })
}

#[test]
fn enumeration_collects_distinct_real_rates() {
    let modes = [
        mode(640, 480, 60),
        mode(800, 600, 75),
        None,
        mode(640, 480, 0),
        mode(640, 480, 1),
        mode(640, 480, 120),
        mode(640, 480, 60),
    ];
    assert_eq!(enumerate_supported_rates(7, &modes, 640, 480), vec![60, 120]);

    let mut scan = RateScan::new(7, 640, 480);
    let mut asked = 0;
    while let Some(i) = scan.next_index() {
        assert_eq!(i, asked);
        scan.offer(modes[i as usize]);
        asked += 1;
    }
    assert_eq!(asked, 7);
    assert_eq!(scan.into_rates(), vec![60, 120]);
}

#[test]
fn enumeration_stops_at_the_table_size() {
    let mut scan = RateScan::new(4096, 640, 480);
    let mut hz = 2;
    while scan.next_index().is_some() {
        scan.offer(mode(640, 480, hz));
        hz += 1;
    }
    let rates = scan.into_rates();
    assert_eq!(rates.len(), MAX_ENUM_RATES);
    assert_eq!(rates[0], 2);
    assert_eq!(rates[MAX_ENUM_RATES - 1], 65);
}

#[test]
fn native_rate_never_exceeds_the_desktop_when_it_can() {
    for desktop in [59, 60, 75, 120, 144, 165] {
        let picked = native_rate(&[60, 75, 100, 120], desktop);
        assert!(normalize_reported_rate(picked) <= normalize_reported_rate(desktop));
    }
    assert_eq!(native_rate(&[75, 100], 60), 75);
}

#[test]
fn fixed_rates_are_checked_against_the_advertised_ones() {
    assert_eq!(check_fixed_rate(RefreshRateMode::Native, &[]), FixedRateCheck::Fine);
    assert_eq!(
        check_fixed_rate(RefreshRateMode::Fixed(nz(120)), &[]),
        FixedRateCheck::Unvalidated
    );
    assert_eq!(
        check_fixed_rate(RefreshRateMode::Fixed(nz(120)), &[60, 119]),
        FixedRateCheck::Fine
    );
    assert_eq!(
        check_fixed_rate(RefreshRateMode::Fixed(nz(240)), &[60, 120]),
        FixedRateCheck::Unsupported
    );
}

#[test]
fn win32_rates_must_be_real() {
    assert_eq!(win32_current_refresh_rate(true, 144), Some(144));
    assert_eq!(win32_current_refresh_rate(true, 1), None);
    assert_eq!(win32_current_refresh_rate(false, 144), None);
}

#[test]
fn format_plans_name_what_they_change() {
    let plan = format_plan(D3DFMT_A1R5G5B5, false, true);
    assert_eq!(plan.format, D3DFMT_X8R8G8B8);
    assert_eq!(plan.upgraded, Some(D3DFMT_A8R8G8B8));
    assert!(plan.scanout_substituted);
    let plan = format_plan(D3DFMT_R5G6B5, true, false);
    assert_eq!(plan.format, D3DFMT_R5G6B5);
    assert_eq!(plan.upgraded, None);
    assert!(!plan.scanout_substituted);
}

#[test]
fn rewriting_twice_changes_nothing_more() {
    for upgrade in [false, true] {
        let policy = PresentPolicy {
            keep_lockable_back_buffer: false,
            upgrade_16bit_back_buffer: upgrade,
        };
        for windowed in [0, 1] {
            let mut once = PresentParameters {
                windowed,
                back_buffer_format: D3DFMT_A1R5G5B5,
                flags: D3DPRESENTFLAG_LOCKABLE_BACKBUFFER,
                ..Default::default()
            };
            rewrite_present_params_impl(&mut once, policy, true);
            let mut twice = once;
            rewrite_present_params_impl(&mut twice, policy, true);
            assert_eq!(once, twice);
        }
    }
}

#[test]
fn capture_samples_every_format_that_is_tried() {
    let direct = policy(false);
    let requested = fs_pp(D3DFMT_R5G6B5, 0);
    let query = CaptureQuery::new(Some(&requested), direct, true).unwrap();
    assert_eq!((query.width, query.height), (640, 480));
    assert_eq!(query.first, D3DFMT_R5G6B5);
    assert_eq!(query.escalated, Some(D3DFMT_X8R8G8B8));
    assert!(query.will_pick);
    assert!(query.wants_win32_rate(None));
    assert!(!query.wants_win32_rate(mode(640, 480, 144)));

    let snap = AdapterSnapshot::capture(
        Some(&requested),
        direct,
        true,
        AdapterSamples {
            desktop_mode: None,
            win32_rate: Some(75),
            first_rates: vec![60],
            escalated_rates: vec![60, 120],
        },
    );
    assert_eq!(snap.desktop_rate, 75);
    assert_eq!(snap.rates_for(D3DFMT_R5G6B5).to_vec(), vec![60]);
    assert_eq!(snap.rates_for(D3DFMT_X8R8G8B8).to_vec(), vec![60, 120]);
    assert!(snap.rates_for(D3DFMT_A8R8G8B8).is_empty());

    let windowed = PresentParameters {
        windowed: 1,
        ..requested
    };
    assert!(CaptureQuery::new(Some(&windowed), direct, true).is_none());
    assert!(CaptureQuery::new(None, direct, true).is_none());
}

#[test]
fn ladder_needs_an_answer_for_every_call() {
    let snap = snapshot(Some(120), 120, &[(D3DFMT_X8R8G8B8, &[60, 120])]);
    let c = ctx(snap, policy(false), true, RefreshRateMode::Native, true);
    let requested = Some(fs_pp(D3DFMT_X8R8G8B8, 0));
    assert!(run_fix_ladder(requested, &c, &[]).is_none());
    assert!(run_fix_ladder(requested, &c, &[D3DERR_INVALIDCALL]).is_none());
    assert!(run_fix_ladder(requested, &c, &[D3DERR_INVALIDCALL; 2]).is_some());
}

#[test]
fn foreign_objects_are_not_translated() {
    assert_eq!(resource_request(true, D3DPOOL_MANAGED, 0), (D3DPOOL_DEFAULT, D3DUSAGE_DYNAMIC));
    assert_eq!(resource_request(false, D3DPOOL_MANAGED, 0), (D3DPOOL_MANAGED, 0));
    assert_eq!(checked_adapter_format(true, D3DFMT_A8R8G8B8), D3DFMT_X8R8G8B8);
    assert_eq!(checked_adapter_format(false, D3DFMT_A8R8G8B8), D3DFMT_A8R8G8B8);
    assert_eq!(checked_adapter_format(true, D3DFMT_R5G6B5), D3DFMT_R5G6B5);
}

#[test]
fn exclusive_fullscreen_is_suspect_when_nothing_moved() {
    let attempt = Some(Attempt {
        pp: fs_pp(D3DFMT_X8R8G8B8, 60),
        mode: None,
    });
    let desktop = mode(1920, 1080, 144);
    assert!(wants_mode_check(desktop, attempt));
    assert!(exclusive_suspect_degraded(desktop, attempt, desktop));
    assert!(!exclusive_suspect_degraded(desktop, attempt, mode(640, 480, 60)));
    assert!(!exclusive_suspect_degraded(desktop, attempt, None));
    assert!(!exclusive_suspect_degraded(desktop, None, desktop));
    // The request is what the desktop shows already.
    let same = mode(640, 480, 59);
    assert!(!wants_mode_check(same, attempt));
    assert!(!exclusive_suspect_degraded(same, attempt, same));
}

#[test]
fn the_format_of_the_last_device_is_remembered() {
    let mut format = BackBufferFormat::new();
    assert_eq!(format.active_back_buffer_format(), None);
    format.record_back_buffer_format(Some(Attempt {
        pp: fs_pp(D3DFMT_X8R8G8B8, 60),
        mode: None,
    }));
    assert_eq!(format.active_back_buffer_format(), Some(D3DFMT_X8R8G8B8));
    // A format that the runtime chose itself is not recorded.
    format.record_back_buffer_format(None);
    format.record_back_buffer_format(Some(Attempt {
        pp: fs_pp(0, 60),
        mode: None,
    }));
    assert_eq!(format.active_back_buffer_format(), Some(D3DFMT_X8R8G8B8));
}

#[test]
fn changed_present_results_are_reported_once() {
    let mut log = PresentLog::new();
    log.begin();
    assert!(log.record(D3D_OK).is_none());
    log.begin();
    let change = log.record(D3DERR_DEVICELOST).unwrap();
    assert_eq!(change.prev_hr, D3D_OK);
    assert_eq!(change.hr, D3DERR_DEVICELOST);
    assert_eq!(change.frame, 2);
    assert_eq!(change.frames_in_prev, 2);
    log.begin();
    assert!(log.record(D3DERR_DEVICELOST).is_none());
    log.begin();
    let change = log.record(D3D_OK).unwrap();
    assert_eq!(change.frames_in_prev, 2);
}

#[test]
fn a_creation_without_a_device_has_failed() {
    let end = finish_create_device(D3D_OK, 0, None, None);
    assert_eq!(end.hr, D3DERR_INVALIDCALL);
    assert_eq!(end.device, 0);
    let end = finish_create_device(D3D_OK, 0x1000, None, None);
    assert_eq!(end.hr, D3D_OK);
    assert_eq!(end.device, 0x1000);
}

#[test]
fn the_policy_in_force_is_the_last_recorded() {
    let mut session = SessionPolicy::new();
    assert!(!session.get().upgrade_16bit_back_buffer);
    assert!(!session.record(upgrading()));
    assert!(session.record(policy(true)));
    assert!(session.get().keep_lockable_back_buffer);
}
