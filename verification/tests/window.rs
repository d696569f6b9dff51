//! The game's window: how it is created, and how it is brought in line later.

use neopatch_core::config::{
    DisplayMode, DisplayModeExt, Resolution, ResolutionConfig, ResolutionConfigExt, WindowCfg,
    WindowFrame,
};
use neopatch_core::d3d8::Rect;
use neopatch_core::nonzero::NonZeroU32;
use neopatch_core::window::{
    adjust_request, append_suffix, apply_window_policy, build_extended_title_from_sjis,
    build_extended_title_from_wide, frame_style, is_main_ansi, is_main_wide, is_top_level,
    live_args, policy_calls, prep_main_window, restyle_plan, topmost_ex_style, Created,
    CreationArgs, DeviceWindow, InsertAfter, MainWindow, PolicyOutcome, ResolvedWindowCfg,
    RestyleNeed, RestylePlan, State, WindowApi, WindowPolicy, CW_USEDEFAULT, SWP_HIDEWINDOW,
    SWP_SHOWWINDOW, WS_CAPTION, WS_CHILD, WS_CLIPSIBLINGS, WS_EX_TOPMOST, WS_OVERLAPPEDWINDOW,
    WS_POPUP, WS_VISIBLE,
};

const WS_EX_WINDOWEDGE: u32 = 0x100;

#[test]
fn window_policy_borderless() {
    let game = ResolutionConfigExt {
        display_mode: DisplayModeExt::Borderless,
        resolution: Resolution::R960x720,
    };
    assert!(matches!(game.window_policy(), WindowPolicy::DeferToGame));

    for (mode, core_mode) in [
        (DisplayModeExt::Windowed, DisplayMode::Windowed),
        (DisplayModeExt::Fullscreen, DisplayMode::Fullscreen),
    ] {
        let game = ResolutionConfigExt {
            display_mode: mode,
            resolution: Resolution::R960x720,
        };
        assert!(
            matches!(
                game.window_policy(),
                WindowPolicy::Restyle {
                    framebuffer: (960, 720),
                    display_mode,
                } if display_mode == core_mode
            ),
            "{mode:?}"
        );
    }

    let game = ResolutionConfig {
        resolution: Resolution::R640x480,
    };
    assert!(matches!(
        game.window_policy(DisplayMode::Fullscreen),
        WindowPolicy::Restyle {
            framebuffer: (640, 480),
            display_mode: DisplayMode::Fullscreen,
        }
    ));
}

#[test]
fn unmodified_frame_creation_style() {
    for frame in [
        WindowFrame::Framed,
        WindowFrame::Frameless,
        WindowFrame::Borderless,
    ] {
        let style = frame_style(frame);
        assert_ne!(style & WS_VISIBLE, 0, "{frame:?} must be created visible");
        let captioned = style & WS_CAPTION == WS_CAPTION;
        let popup = style & WS_POPUP != 0;
        assert!(captioned != popup, "{frame:?} must be captioned xor popup");
    }
}

#[test]
fn ex_style_topmost_modification() {
    assert_eq!(topmost_ex_style(0, false), 0);
    assert_eq!(topmost_ex_style(0, true), WS_EX_TOPMOST);
    assert_eq!(topmost_ex_style(0x40000, true), 0x40000 | WS_EX_TOPMOST);
    assert_eq!(topmost_ex_style(0x40000, false), 0x40000);
}

fn restyle_state(frame: WindowFrame, always_on_top: bool) -> State {
    State::Restyle {
        restyle: ResolvedWindowCfg {
            position: Some((100, 120)),
            width: 640,
            height: 480,
            frame,
            always_on_top,
        },
    }
}

fn requested(style: u32) -> CreationArgs {
    CreationArgs {
        x: 11,
        y: 22,
        width: 646,
        height: 512,
        style,
        ex_style: 0x40000,
    }
}

/// The outer rectangle of a client area as the system adjusts it: a popup has no frame, and
/// every other window gets one of 3 pixels and a caption of 26.
fn outer(client: Rect, style: u32) -> Rect {
    if style & WS_POPUP != 0 {
        client
    } else {
        Rect {
            left: client.left - 3,
            top: client.top - 26,
            right: client.right + 3,
            bottom: client.bottom + 3,
        }
    }
}

fn adjusted(state: &State, is_main: bool, req: CreationArgs) -> Rect {
    match adjust_request(state, is_main, req) {
        Some(ask) => outer(ask.client, ask.style),
        None => Rect { left: 0, top: 0, right: 0, bottom: 0 },
    }
}

fn prep(state: &State, is_main: bool, req: CreationArgs) -> CreationArgs {
    prep_main_window(state, is_main, req, adjusted(state, is_main, req))
}

fn plan_for(state: &State, live: CreationArgs) -> Option<RestylePlan> {
    restyle_plan(state, live, adjusted(state, true, live))
}

#[test]
fn non_main_windows_not_rewritten() {
    // The game's own request must survive untouched for any window that is not the render window;
    // the IME and sound helper windows come through the same hook.
    let state = restyle_state(WindowFrame::Framed, true);
    let req = requested(0x100a_0000);
    let got = prep(&state, false, req);
    assert_eq!((got.x, got.y), (req.x, req.y));
    assert_eq!((got.width, got.height), (req.width, req.height));
    assert_eq!((got.style, got.ex_style), (req.style, req.ex_style));
}

#[test]
fn restyle_rewrite_args() {
    let state = restyle_state(WindowFrame::Framed, false);
    let got = prep(&state, true, requested(0x100a_0000));
    assert_eq!((got.x, got.y), (100, 120));
    assert_eq!(got.style, frame_style(WindowFrame::Framed));
    assert_eq!(got.ex_style, 0);
    assert!(got.width >= 640 && got.height > 480);
    assert_eq!((got.width, got.height), (646, 509));
}

#[test]
fn fullscreen_style() {
    let req = requested(WS_POPUP | WS_VISIBLE);
    let state = restyle_state(WindowFrame::Framed, true);
    let got = prep(&state, true, req);
    assert_eq!((got.x, got.y), (req.x, req.y));
    assert_eq!((got.width, got.height), (req.width, req.height));
    assert_eq!(got.style, req.style, "the game's style is kept");
    assert_eq!(got.ex_style, req.ex_style | WS_EX_TOPMOST);
}

#[test]
fn defer_to_game_style() {
    let req = requested(0x1000_0000);
    for (always_on_top, expected_ex) in
        [(false, req.ex_style), (true, req.ex_style | WS_EX_TOPMOST)]
    {
        let state = State::DeferToGame { always_on_top };
        let got = prep(&state, true, req);
        assert_eq!((got.width, got.height), (req.width, req.height));
        assert_eq!(got.style, req.style);
        assert_eq!(got.ex_style, expected_ex);
    }
}

#[test]
fn unset_position_and_borderless_outer_size() {
    let state = State::Restyle {
        restyle: ResolvedWindowCfg {
            position: None,
            width: 640,
            height: 480,
            frame: WindowFrame::Borderless,
            always_on_top: false,
        },
    };
    let got = prep(&state, true, requested(0x100a_0000));
    assert_eq!((got.x, got.y), (CW_USEDEFAULT, CW_USEDEFAULT));
    assert_eq!((got.width, got.height), (640, 480));
}

#[test]
fn restyle_plan_for_displaced_hook() {
    let live = CreationArgs {
        x: 0,
        y: 0,
        width: 640,
        height: 480,
        style: WS_OVERLAPPEDWINDOW | WS_CLIPSIBLINGS,
        ex_style: WS_EX_WINDOWEDGE,
    };

    let state = restyle_state(WindowFrame::Framed, false);
    let plan = plan_for(&state, live).expect("policy differs from the game's window");
    // The policy's frame bits replace the game's, while bits outside the mask survive.
    assert_eq!(
        plan.style,
        Some(WS_CLIPSIBLINGS | (frame_style(WindowFrame::Framed) & !WS_VISIBLE))
    );
    assert_eq!(plan.band, None);
    assert_eq!(plan.position, Some((100, 120)));
    let (w, h) = plan
        .size
        .expect("frame changed, so the outer rect for 640x480 changed");
    assert!(w >= 640 && h > 480);

    let applied = CreationArgs {
        x: 100,
        y: 120,
        width: w,
        height: h,
        style: plan.style.expect("the frame changed") | WS_VISIBLE,
        // The restyle never writes the ex-style, so the live one carries over untouched.
        ex_style: live.ex_style,
    };
    assert!(plan_for(&state, applied).is_none());
}

#[test]
fn restyle_plan_skip_satisfied_window() {
    let live = CreationArgs {
        x: 0,
        y: 0,
        width: 640,
        height: 480,
        style: WS_POPUP | WS_VISIBLE | WS_CLIPSIBLINGS,
        ex_style: 0,
    };
    assert!(plan_for(&restyle_state(WindowFrame::Framed, false), live).is_none());
    assert!(
        plan_for(
            &State::DeferToGame {
                always_on_top: false
            },
            live
        )
        .is_none()
    );

    let state = State::DeferToGame {
        always_on_top: true,
    };
    let plan = plan_for(&state, live).expect("topmost band not entered yet");
    assert_eq!(plan.style, None);
    assert_eq!(plan.band, Some(true));
    assert!(plan.position.is_none() && plan.size.is_none());
    let applied = CreationArgs {
        ex_style: WS_EX_TOPMOST,
        ..live
    };
    assert!(plan_for(&state, applied).is_none());
}

#[test]
fn restyle_plan_demote_topmost() {
    let live = CreationArgs {
        x: 0,
        y: 0,
        width: 640,
        height: 480,
        style: WS_OVERLAPPEDWINDOW | WS_CLIPSIBLINGS,
        ex_style: WS_EX_TOPMOST,
    };
    let state = restyle_state(WindowFrame::Framed, false);
    let plan = plan_for(&state, live).expect("frame and band both differ");
    assert_eq!(plan.band, Some(false));

    // The passthrough arm keeps the game's ex-style, so a popup fullscreen window is never demoted.
    let popup = CreationArgs {
        style: WS_POPUP | WS_VISIBLE | WS_CLIPSIBLINGS,
        ..live
    };
    assert!(plan_for(&state, popup).is_none());
}

#[test]
fn restyle_plan_keep_system_position() {
    let state = State::Restyle {
        restyle: ResolvedWindowCfg {
            position: None,
            width: 640,
            height: 480,
            frame: WindowFrame::Borderless,
            always_on_top: false,
        },
    };
    let live = CreationArgs {
        x: 32,
        y: 64,
        width: 646,
        height: 512,
        style: WS_OVERLAPPEDWINDOW | WS_CLIPSIBLINGS,
        ex_style: 0,
    };
    let plan = plan_for(&state, live).expect("frame and size differ");
    assert_eq!(plan.position, None);
    assert_eq!(plan.size, Some((640, 480)));
    assert_eq!(plan.style, Some(WS_CLIPSIBLINGS | WS_POPUP));
    assert_eq!(plan.band, None);
}

#[test]
fn position_pair() {
    let base = WindowCfg {
        x: None,
        y: None,
        width: None,
        height: None,
        frame: None,
        always_on_top: false,
    };
    let resolve = |x, y| {
        ResolvedWindowCfg::new(
            &WindowCfg { x, y, ..base },
            (640, 480),
            DisplayMode::Windowed,
        )
        .position
    };
    assert_eq!(resolve(None, None), None);
    assert_eq!(resolve(Some(10), Some(20)), Some((10, 20)));
    assert_eq!(resolve(Some(10), None), Some((10, 0)));
    assert_eq!(resolve(None, Some(20)), Some((0, 20)));
    assert_eq!(resolve(Some(0), Some(0)), Some((0, 0)));
}

#[test]
fn unset_size_fallback() {
    let cfg = WindowCfg {
        x: None,
        y: None,
        width: None,
        height: NonZeroU32::new(720),
        frame: Some(WindowFrame::Borderless),
        always_on_top: false,
    };
    let resolved = ResolvedWindowCfg::new(&cfg, (1280, 960), DisplayMode::Windowed);
    assert_eq!((resolved.width, resolved.height), (1280, 720));
}

#[test]
fn states_follow_the_policy() {
    let cfg = WindowCfg {
        x: None,
        y: None,
        width: None,
        height: None,
        frame: None,
        always_on_top: true,
    };
    assert!(matches!(
        State::resolve(&cfg, WindowPolicy::DeferToGame),
        State::DeferToGame { always_on_top: true }
    ));
    let policy = WindowPolicy::Restyle {
        framebuffer: (640, 480),
        display_mode: DisplayMode::Windowed,
    };
    assert!(matches!(
        State::resolve(&cfg, policy),
        State::Restyle { restyle } if restyle.frame == WindowFrame::Frameless && restyle.width == 640
    ));
    assert_eq!(WindowApi::Ansi.import_name(), "CreateWindowExA");
    assert_eq!(WindowApi::Wide.import_name(), "CreateWindowExW");
}

#[test]
fn live_windows_are_read_as_requests() {
    let rc = Rect { left: 10, top: 20, right: 650, bottom: 500 };
    let live = live_args(rc, -0x8000_0000, 8);
    assert_eq!((live.x, live.y, live.width, live.height), (10, 20, 640, 480));
    assert_eq!((live.style, live.ex_style), (WS_POPUP, WS_EX_TOPMOST));
    let far = live_args(
        Rect { left: i32::MIN, top: 0, right: i32::MAX, bottom: 0 },
        0,
        0,
    );
    assert_eq!(far.width, -1);
}

#[test]
fn windows_that_move_are_hidden_first() {
    let live = CreationArgs {
        x: 0,
        y: 0,
        width: 640,
        height: 480,
        style: WS_OVERLAPPEDWINDOW | WS_VISIBLE,
        ex_style: 0,
    };
    let state = restyle_state(WindowFrame::Framed, true);
    let plan = plan_for(&state, live).unwrap();
    let calls = policy_calls(plan, live);
    assert!(calls.hide.unwrap().flags & SWP_HIDEWINDOW != 0);
    assert!(matches!(calls.set_pos.insert_after, InsertAfter::Topmost));
    assert_eq!((calls.set_pos.x, calls.set_pos.y), (100, 120));

    assert!(matches!(
        apply_window_policy(None, Some(live), adjusted(&state, true, live)),
        PolicyOutcome::NotEvaluated
    ));
    assert!(matches!(
        apply_window_policy(Some(&state), None, adjusted(&state, true, live)),
        PolicyOutcome::NotEvaluated
    ));
    assert!(matches!(
        apply_window_policy(Some(&state), Some(live), adjusted(&state, true, live)),
        PolicyOutcome::Apply(_)
    ));
}

#[test]
fn a_window_is_styled_once() {
    let mut main = MainWindow::new();
    assert_eq!(main.main_hwnd(), 0);
    assert!(matches!(main.finish_main_window(0, true), Created::Failed));
    assert!(matches!(main.finish_main_window(0x10, false), Created::NotMain));
    assert!(matches!(main.finish_main_window(0x20, true), Created::Main));
    assert_eq!(main.main_hwnd(), 0x20);
    assert!(matches!(
        main.restyle_device_window(0x20, true, true),
        RestyleNeed::StyledAtCreation
    ));
    assert!(matches!(main.restyle_device_window(0, true, true), RestyleNeed::NoWindow));
    assert!(matches!(
        main.restyle_device_window(0x30, false, true),
        RestyleNeed::NotTopLevel
    ));
    assert!(matches!(
        main.restyle_device_window(0x30, true, true),
        RestyleNeed::Evaluate
    ));
    let window = main.finish_restyle(0x30, &PolicyOutcome::Satisfied);
    assert_eq!(window.hwnd, 0x30);
    assert!(!window.hidden_for_restyle);
}

#[test]
fn hidden_windows_come_back() {
    let hidden = DeviceWindow { hwnd: 0x20, hidden_for_restyle: true };
    assert!(hidden.bring_up(false).show.unwrap().flags & SWP_SHOWWINDOW != 0);
    assert!(hidden.restore(false).show.unwrap().flags & SWP_SHOWWINDOW != 0);
    let untouched = DeviceWindow { hwnd: 0x20, hidden_for_restyle: false };
    assert!(untouched.restore(false).show.is_none());
}

#[test]
fn top_level_windows_are_no_children() {
    assert!(is_top_level(true, (WS_POPUP | WS_VISIBLE) as i32));
    assert!(!is_top_level(true, (WS_CHILD | WS_VISIBLE) as i32));
    assert!(!is_top_level(false, WS_POPUP as i32));
}

#[test]
fn the_render_window_is_known_by_its_class() {
    let class = b"BASE\0";
    assert!(is_main_ansi(0, class, 5));
    assert!(!is_main_ansi(1, class, 5));
    assert!(!is_main_ansi(0, b"BASES\0", 6));
    let wide: Vec<u16> = "BASE\0".encode_utf16().collect();
    assert!(is_main_wide(0, &wide, 5));
    assert!(!is_main_wide(1, &wide, 5));
}

fn text(units: &[u16]) -> String {
    String::from_utf16_lossy(units)
}

#[test]
fn titles_are_extended() {
    let mut bare: Vec<u16> = Vec::new();
    append_suffix(&mut bare, "1.2.3");
    let suffix = text(&bare);
    assert_eq!(suffix, " + neopatch v1.2.3\0");

    let wide: Vec<u16> = "game\0".encode_utf16().collect();
    let title = build_extended_title_from_wide(&wide[..4], "1.2.3").unwrap();
    assert_eq!(text(&title), format!("game{suffix}"));
    let title = build_extended_title_from_sjis(Some(wide), "1.2.3").unwrap();
    assert_eq!(text(&title), format!("game{suffix}"));
    assert!(build_extended_title_from_sjis(None, "1.2.3").is_none());
    assert!(build_extended_title_from_wide(&[], "1.2.3").is_none());
}
