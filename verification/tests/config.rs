//! Configuration files: text decoding, settings, and what they mean.

use neopatch_core::config::{
    apply_display, apply_framerate, apply_input, apply_log, apply_process, apply_window,
    parse_display_mode, parse_display_mode_ext, parse_level, parse_priority_class,
    parse_refresh_rate, parse_resolution, parse_window_frame, CoreConfig, DisplayCfg, DisplayMode,
    DisplayModeExt, FramerateCfg, InputCfg, LevelFilter, LogCfg, PriorityClass, ProcessCfg,
    Resolution, ResolutionConfig, ResolutionConfigExt, WindowCfg, WindowFrame, DEFAULT_GAME_FPS,
    DEFAULT_REPLAY_SKIP_FPS, DEFAULT_REPLAY_SLOW_FPS, DEFAULT_SESSIONS_TO_KEEP,
};
use neopatch_core::decode::decode_text;
use neopatch_core::ini::{
    for_each_setting, is_whitespace, parse_bitmask, parse_bool, parse_i32, parse_u32, unquote,
};
use neopatch_core::nonzero::NonZeroU32;
use neopatch_core::rates::RefreshRateMode;

fn nz(n: u32) -> NonZeroU32 {
    NonZeroU32::new(n).unwrap()
}

#[test]
fn decode_text_strip_bom() {
    assert_eq!(decode_text(b"\xef\xbb\xbfhello"), "hello");
    assert_eq!(decode_text(b"hello"), "hello");
    // Only one BOM is stripped.
    assert_eq!(decode_text(b"\xef\xbb\xbf\xef\xbb\xbfx"), "\u{feff}x",);
}

#[test]
fn decode_text_utf16_boms() {
    let mut le = vec![0xff, 0xfe];
    for u in "[a]\nk = 1".encode_utf16() {
        le.extend_from_slice(&u.to_le_bytes());
    }
    assert_eq!(decode_text(&le), "[a]\nk = 1");

    let mut be = vec![0xfe, 0xff];
    for u in "x = y".encode_utf16() {
        be.extend_from_slice(&u.to_be_bytes());
    }
    assert_eq!(decode_text(&be), "x = y");

    le.push(0x41);
    assert_eq!(decode_text(&le), "[a]\nk = 1");
}

type Setting = (String, String, String);

fn settings(text: &str) -> Vec<Setting> {
    let mut out = Vec::new();
    for s in for_each_setting(text) {
        out.push((s.section, s.key, s.value));
    }
    out
}

fn one(section: &str, key: &str, value: &str) -> Vec<Setting> {
    vec![(section.into(), key.into(), value.into())]
}

#[test]
fn parse_comments_quotes_headers() {
    let cases = &[
        ("[a]\nk = v ; note", one("a", "k", "v")),
        ("[a]\nk = 120;faster", one("a", "k", "120")),
        ("[a]\nk = 1#gamepad", one("a", "k", "1")),
        (
            "[a]\nk = D:\\Marisa's Logs   ; keep",
            one("a", "k", "D:\\Marisa's Logs"),
        ),
        (
            "[a]\nk = 'D:\\Touhou #2\\logs'",
            one("a", "k", "D:\\Touhou #2\\logs"),
        ),
        ("[a]\nk = \"C:\\foo;bar\"", one("a", "k", "C:\\foo;bar")),
        ("[a]\nk = \"a ; b\" ; c", one("a", "k", "a ; b")),
        (
            "[a]\nk = 'unterminated ; note",
            one("a", "k", "'unterminated"),
        ),
        ("[a]\nk = 'D:\\Marisa's Logs'", one("a", "k", "D:\\Marisa")),
        (
            "[a]\nk = \"D:\\Marisa's Logs\"",
            one("a", "k", "D:\\Marisa's Logs"),
        ),
        ("[a]\n; k = v", vec![]),
        ("[a]\n# k = v", vec![]),
        ("[a] ; note\nk = v", one("a", "k", "v")),
        ("[input]\ndpad ; turn this off = false", vec![]),
        ("[input]\nNOTE # see dpad = 0 to disable", vec![]),
        ("[input]\ndpad = 1 ; 0 = off", one("input", "dpad", "1")),
        ("[a] ; note = x\nk = v", one("a", "k", "v")),
        ("[a] # note = x\nk = v", one("a", "k", "v")),
        ("[a junk = 1\nk = v", one("", "k", "v")),
    ];
    for (text, expected) in cases {
        assert_eq!(&settings(text), expected, "{text:?}");
    }
}

#[test]
fn unquote_strip_matching_pairs() {
    assert_eq!(unquote("\"hi\""), "hi");
    assert_eq!(unquote("'hi'"), "hi");
    assert_eq!(unquote("hi"), "hi");
    // Mismatched quotes are left intact.
    assert_eq!(unquote("\"hi'"), "\"hi'");
    // Single-character inputs don't qualify (need >= 2 bytes).
    assert_eq!(unquote("\""), "\"");
    // Empty quoted pair becomes empty.
    assert_eq!(unquote("\"\""), "");
}

#[test]
fn parse_bool_aliases() {
    assert_eq!(parse_bool("true"), Some(true));
    assert_eq!(parse_bool("YES"), Some(true));
    assert_eq!(parse_bool("on"), Some(true));
    assert_eq!(parse_bool("1"), Some(true));
    assert_eq!(parse_bool("false"), Some(false));
    assert_eq!(parse_bool("no"), Some(false));
    assert_eq!(parse_bool("off"), Some(false));
    assert_eq!(parse_bool("0"), Some(false));
    assert_eq!(parse_bool("maybe"), None);
}

#[test]
fn parse_u32_decimal_only() {
    assert_eq!(parse_u32("42"), Some(42));
    // No radix prefix support here.
    assert_eq!(parse_u32("0xff"), None);
    assert_eq!(parse_u32("0b10"), None);
    assert_eq!(parse_u32("nope"), None);
}

#[test]
fn parse_bitmask_radix_prefixes() {
    assert_eq!(parse_bitmask("42"), Some(42));
    assert_eq!(parse_bitmask("0xff"), Some(0xff));
    assert_eq!(parse_bitmask("0xFF"), Some(0xff));
    assert_eq!(parse_bitmask("0o17"), Some(0o17));
    assert_eq!(parse_bitmask("0b1010"), Some(0b1010));
    assert_eq!(parse_bitmask("0xFFFFFFFF"), Some(u32::MAX));
    // Anything that wouldn't fit in `u32` is rejected.
    assert_eq!(parse_bitmask("0x100000000"), None);
    assert_eq!(parse_bitmask("nope"), None);
}

#[test]
fn parse_priority_class_no_realtime() {
    assert_eq!(parse_priority_class("high"), Some(PriorityClass::High));
    assert_eq!(parse_priority_class("HIGH"), Some(PriorityClass::High));
    assert_eq!(
        parse_priority_class("unchanged"),
        Some(PriorityClass::Unchanged)
    );
    assert_eq!(parse_priority_class("realtime"), None);
}

#[test]
fn parse_refresh_rate_fallback() {
    assert_eq!(parse_refresh_rate("native"), Some(RefreshRateMode::Native));
    assert_eq!(
        parse_refresh_rate("nativemultiple"),
        Some(RefreshRateMode::NativeMultiple),
    );
    assert_eq!(
        parse_refresh_rate("144"),
        Some(RefreshRateMode::Fixed(nz(144)))
    );
    // No radix prefix support here.
    assert_eq!(parse_refresh_rate("0xFF"), None);
    assert_eq!(parse_refresh_rate("garbage"), None);
    assert_eq!(parse_refresh_rate("0"), None);
    assert_eq!(parse_refresh_rate("0x0"), None);
}

#[test]
fn parse_window_frame_variants() {
    assert_eq!(parse_window_frame("framed"), Some(WindowFrame::Framed));
    assert_eq!(
        parse_window_frame("FRAMELESS"),
        Some(WindowFrame::Frameless)
    );
    assert_eq!(
        parse_window_frame("borderless"),
        Some(WindowFrame::Borderless),
    );
    assert_eq!(parse_window_frame("nope"), None);
}

#[test]
fn apply_log_set_known_keys() {
    let mut cfg = LogCfg::default();
    apply_log(&mut cfg, "level", "off");
    // Zero sessions would delete the session being written, so it falls back to the default.
    apply_log(&mut cfg, "sessions_to_keep", "0");
    apply_log(&mut cfg, "log_dir", "");
    assert_eq!(cfg.level, LevelFilter::Off);
    assert_eq!(cfg.sessions_to_keep, nz(DEFAULT_SESSIONS_TO_KEEP));
    assert_eq!(cfg.log_dir, None);
}

#[test]
fn apply_display_ignore_unknown_keys() {
    // Game-specific keys should be silently skipped by `apply_display` here.
    let mut cfg = DisplayCfg::default();
    let baseline_mode = cfg.mode;
    let baseline_rate = cfg.refresh_rate;
    apply_display(&mut cfg, "resolution", "640x480");
    assert_eq!(cfg.mode, baseline_mode);
    assert_eq!(cfg.refresh_rate, baseline_rate);
}

#[test]
fn apply_framerate_set_known_keys() {
    let mut cfg = FramerateCfg::default();
    apply_framerate(&mut cfg, "game_fps", "120");
    apply_framerate(&mut cfg, "replay_skip_fps", "480");
    apply_framerate(&mut cfg, "replay_slow_fps", "garbage");
    assert_eq!(cfg.game_fps, 120);
    assert_eq!(cfg.replay_skip_fps, 480);
    assert_eq!(cfg.replay_slow_fps, DEFAULT_REPLAY_SLOW_FPS);
}

#[test]
fn apply_window_default_and_overrides() {
    let mut cfg = WindowCfg::default();
    apply_window(&mut cfg, "width", "1920");
    apply_window(&mut cfg, "always_on_top", "true");
    apply_window(&mut cfg, "frame", "borderless");
    assert_eq!(cfg.width, Some(nz(1920)));
    // An unset dimension remains `None` so the game-derived value is used.
    assert_eq!(cfg.height, None);
    assert_eq!(cfg.frame, Some(WindowFrame::Borderless));
    assert!(cfg.always_on_top);
}

#[test]
fn zero_means_unset() {
    let mut window = WindowCfg::default();
    apply_window(&mut window, "width", "0");
    apply_window(&mut window, "height", "0");
    assert_eq!(window.width, None);
    assert_eq!(window.height, None);

    let mut process = ProcessCfg::default();
    apply_process(&mut process, "affinity_mask", "0");
    assert_eq!(process.affinity_mask, None);
}

#[test]
fn default_core_config_matches_documented_defaults() {
    let cfg = CoreConfig::default();
    assert_eq!(cfg.display.mode, DisplayMode::Windowed);
    assert_eq!(cfg.display.refresh_rate, RefreshRateMode::NativeMultiple);
    assert_eq!(cfg.window.x, None);
    assert_eq!(cfg.window.y, None);
    assert_eq!(cfg.window.width, None);
    assert_eq!(cfg.window.height, None);
    assert_eq!(cfg.window.frame, None);
    assert!(!cfg.window.always_on_top);
    assert_eq!(cfg.framerate.game_fps, DEFAULT_GAME_FPS);
    assert_eq!(cfg.framerate.replay_skip_fps, DEFAULT_REPLAY_SKIP_FPS);
    assert_eq!(cfg.framerate.replay_slow_fps, DEFAULT_REPLAY_SLOW_FPS);
    assert!(cfg.input.dpad);
    assert_eq!(cfg.process.priority, PriorityClass::Unchanged);
    assert_eq!(cfg.process.affinity_mask, None);
    assert_eq!(cfg.log.level, LevelFilter::Info);
    assert_eq!(cfg.log.sessions_to_keep, nz(DEFAULT_SESSIONS_TO_KEEP));
    assert_eq!(cfg.log.log_dir, None);
    assert_eq!(CoreConfig::parse(""), cfg);
}

#[test]
fn apply_input_dpad_toggle() {
    let mut cfg = InputCfg::default();
    assert!(cfg.dpad);
    apply_input(&mut cfg, "dpad", "off");
    assert!(!cfg.dpad);
    apply_input(&mut cfg, "dpad", "on");
    assert!(cfg.dpad);
    // Unknown values leave the current setting alone.
    apply_input(&mut cfg, "dpad", "garbage");
    assert!(cfg.dpad);
    // Unknown keys are ignored.
    apply_input(&mut cfg, "other_key", "off");
    assert!(cfg.dpad);
}

#[test]
fn core_config_apply_known_keys() {
    let text = "
        [framerate]
        game_fps = 120
        replay_skip_fps = 480

        [process]
        priority = High
        affinity_mask = 0xFF

        [display]
        mode = fullscreen
    ";
    let cfg = CoreConfig::parse(text);
    assert_eq!(cfg.framerate.game_fps, 120);
    assert_eq!(cfg.framerate.replay_skip_fps, 480);
    assert_eq!(cfg.process.priority, PriorityClass::High);
    assert_eq!(cfg.process.affinity_mask, Some(nz(0xff)));
    assert_eq!(cfg.display.mode, DisplayMode::Fullscreen);
}

#[test]
fn parse_resolution_setting() {
    assert_eq!(parse_resolution("640x480"), Some(Resolution::R640x480));
    assert_eq!(parse_resolution("960x720"), Some(Resolution::R960x720));
    assert_eq!(parse_resolution("1280x960"), Some(Resolution::R1280x960));
    assert_eq!(parse_resolution("1920x1080"), None);
    assert_eq!(parse_resolution("borderless"), None);
}

#[test]
fn parse_display_mode_ext_setting() {
    assert_eq!(
        parse_display_mode_ext("windowed"),
        Some(DisplayModeExt::Windowed)
    );
    assert_eq!(
        parse_display_mode_ext("Fullscreen"),
        Some(DisplayModeExt::Fullscreen)
    );
    assert_eq!(
        parse_display_mode_ext("BORDERLESS"),
        Some(DisplayModeExt::Borderless)
    );
    assert_eq!(parse_display_mode_ext("idk"), None);
}

#[test]
fn dialog_indices_match_startup_dialog() {
    // Borderless has no resolution buttons of its own, so all three sizes collapse onto one pair.
    let cases = [
        (DisplayModeExt::Fullscreen, Resolution::R640x480, 0, 0),
        (DisplayModeExt::Fullscreen, Resolution::R960x720, 1, 1),
        (DisplayModeExt::Fullscreen, Resolution::R1280x960, 2, 2),
        (DisplayModeExt::Windowed, Resolution::R640x480, 3, 0),
        (DisplayModeExt::Windowed, Resolution::R960x720, 4, 1),
        (DisplayModeExt::Windowed, Resolution::R1280x960, 5, 2),
        (DisplayModeExt::Borderless, Resolution::R640x480, 8, 5),
        (DisplayModeExt::Borderless, Resolution::R960x720, 8, 5),
        (DisplayModeExt::Borderless, Resolution::R1280x960, 8, 5),
    ];

    for (mode, res, radio, scale) in cases {
        assert_eq!(res.radio_index(mode), radio, "{mode:?} {res:?} radio");
        assert_eq!(res.scale_index(mode), scale, "{mode:?} {res:?} scale");
    }
}

#[test]
fn to_core_borderless() {
    assert_eq!(DisplayModeExt::Windowed.to_core(), DisplayMode::Windowed);
    assert_eq!(
        DisplayModeExt::Fullscreen.to_core(),
        DisplayMode::Fullscreen
    );
    assert_eq!(
        DisplayModeExt::Borderless.to_core(),
        DisplayMode::Fullscreen
    );
}

#[test]
fn default_resolution_config_matches_documented_defaults() {
    let (game, core) = ResolutionConfig::parse("");
    assert_eq!(game.resolution, Resolution::R1280x960);
    assert_eq!(core, CoreConfig::default());
}

#[test]
fn resolution_config_apply_known_keys() {
    let text = "
        [framerate]
        game_fps = 120

        [display]
        resolution = 960x720
    ";
    let (game, core) = ResolutionConfig::parse(text);
    assert_eq!(game.resolution, Resolution::R960x720);
    assert_eq!(core.framerate.game_fps, 120);
}

#[test]
fn default_resolution_config_ext_matches_documented_defaults() {
    let (game, core) = ResolutionConfigExt::parse("");
    assert_eq!(game.display_mode, DisplayModeExt::Windowed);
    assert_eq!(game.resolution, Resolution::R1280x960);
    assert_eq!(core, CoreConfig::default());
}

#[test]
fn resolution_config_ext_apply_known_keys() {
    let text = "
        [framerate]
        game_fps = 120

        [display]
        mode = Borderless
        resolution = 960x720
    ";
    let (game, core) = ResolutionConfigExt::parse(text);
    assert_eq!(game.display_mode, DisplayModeExt::Borderless);
    assert_eq!(game.resolution, Resolution::R960x720);
    assert_eq!(core.display.mode, DisplayMode::Fullscreen);
    assert_eq!(core.framerate.game_fps, 120);
}

#[test]
fn core_config_ignore_unknown_sections_and_keys() {
    let text = "
        [does_not_exist]
        x = 1

        [framerate]
        unknown_key = whatever
        game_fps = NotANumber

        no_equals_sign
        ; comment line
        # also a comment
    ";
    let cfg = CoreConfig::parse(text);
    assert_eq!(cfg.framerate.game_fps, DEFAULT_GAME_FPS);
}

#[test]
fn whitespace_is_the_unicode_property() {
    for n in 0..=0x10ffffu32 {
        if let Some(c) = char::from_u32(n) {
            assert_eq!(is_whitespace(c), c.is_whitespace(), "{n:#x}");
        }
    }
}

#[test]
fn decode_text_gives_back_what_was_written() {
    for text in ["", "[a]\nk = 1", "東方紅魔郷", "a\u{1f338}b\u{10ffff}", "x\u{feff}"] {
        let units: Vec<u16> = text.encode_utf16().collect();
        let mut le = vec![0xff, 0xfe];
        let mut be = vec![0xfe, 0xff];
        for unit in units {
            le.extend(unit.to_le_bytes());
            be.extend(unit.to_be_bytes());
        }
        let mut marked = vec![0xef, 0xbb, 0xbf];
        marked.extend(text.as_bytes());
        for bytes in [le.as_slice(), be.as_slice(), marked.as_slice(), text.as_bytes()] {
            assert_eq!(decode_text(bytes), text);
        }
    }
    // Behind a mark, a text may start with U+FEFF itself.
    assert_eq!(decode_text("\u{feff}\u{feff}x".as_bytes()), "\u{feff}x");
    assert_eq!(decode_text("\u{feff}x".as_bytes()), "x");
}

#[test]
fn decode_text_replaces_what_is_malformed() {
    assert_eq!(decode_text(b""), "");
    assert_eq!(decode_text(b"a\xffb"), "a\u{fffd}b");
    // An unpaired surrogate.
    assert_eq!(decode_text(&[0xff, 0xfe, 0x00, 0xd8, 0x41, 0x00]), "\u{fffd}A");
    // A byte order mark alone.
    assert_eq!(decode_text(&[0xff, 0xfe]), "");
    assert_eq!(decode_text(&[0xfe, 0xff, 0x41]), "");
}

#[test]
fn parse_numbers_at_their_limits() {
    assert_eq!(parse_u32("4294967295"), Some(u32::MAX));
    assert_eq!(parse_u32("4294967296"), None);
    assert_eq!(parse_u32("+5"), Some(5));
    assert_eq!(parse_u32("-5"), None);
    assert_eq!(parse_u32(""), None);
    assert_eq!(parse_u32("+"), None);
    assert_eq!(parse_i32("-2147483648"), Some(i32::MIN));
    assert_eq!(parse_i32("2147483647"), Some(i32::MAX));
    assert_eq!(parse_i32("2147483648"), None);
    assert_eq!(parse_i32("-2147483649"), None);
    assert_eq!(parse_i32("-"), None);
    assert_eq!(parse_bitmask("0x"), None);
    assert_eq!(parse_bitmask("0o8"), None);
    assert_eq!(parse_bitmask("0b2"), None);
    assert_eq!(parse_bitmask("4294967295"), Some(u32::MAX));
    assert_eq!(parse_bitmask("4294967296"), None);
}

#[test]
fn parse_numbers_as_the_standard_library_does() {
    for s in [
        "0", "00", "007", "+0", "-0", "+-1", "--1", "1 ", " 1", "1_0", "\u{ff11}", "99999999999",
        "-1", "+2147483647", "12a",
    ] {
        assert_eq!(parse_u32(s), s.parse::<u32>().ok(), "{s:?}");
        assert_eq!(parse_i32(s), s.parse::<i32>().ok(), "{s:?}");
    }
}

#[test]
fn parse_level_and_display_mode_words() {
    assert_eq!(parse_level("off"), Some(LevelFilter::Off));
    assert_eq!(parse_level("ERROR"), Some(LevelFilter::Error));
    assert_eq!(parse_level("Warn"), Some(LevelFilter::Warn));
    assert_eq!(parse_level("info"), Some(LevelFilter::Info));
    assert_eq!(parse_level("debug"), Some(LevelFilter::Debug));
    assert_eq!(parse_level("trace"), Some(LevelFilter::Trace));
    assert_eq!(parse_level("loud"), None);
    assert_eq!(parse_display_mode("Windowed"), Some(DisplayMode::Windowed));
    assert_eq!(parse_display_mode("FULLSCREEN"), Some(DisplayMode::Fullscreen));
    assert_eq!(parse_display_mode("borderless"), None);
}

#[test]
fn settings_belong_to_the_section_above_them() {
    let text = "k = 0\n[A]\nk = 1\n[ b ]\nK=2\r\n\n=3\n";
    assert_eq!(
        settings(text),
        vec![
            (String::new(), "k".to_string(), "0".to_string()),
            ("A".to_string(), "k".to_string(), "1".to_string()),
            ("b".to_string(), "K".to_string(), "2".to_string()),
        ]
    );
}

#[test]
fn the_last_of_two_settings_counts() {
    let cfg = CoreConfig::parse("[framerate]\ngame_fps = 120\ngame_fps = 75\n");
    assert_eq!(cfg.framerate.game_fps, 75);
}

#[test]
fn resolution_dimensions() {
    assert_eq!(Resolution::R640x480.dimensions(), (640, 480));
    assert_eq!(Resolution::R960x720.dimensions(), (960, 720));
    assert_eq!(Resolution::R1280x960.dimensions(), (1280, 960));
    assert_eq!(Resolution::R640x480.index(), 0);
    assert_eq!(Resolution::R1280x960.index(), 2);
}

#[test]
fn quoted_and_plain_values_mean_the_same() {
    assert_eq!(settings("[a]\nk = \"fullscreen\""), settings("[a]\nk = fullscreen"));
    assert_eq!(settings("[a]\nk = 'fullscreen'"), settings("[a]\nk = fullscreen"));
    assert_eq!(settings("[a]\nk=\" a ; b \""), one("a", "k", " a ; b "));
    assert_eq!(settings("[a]\nk=\"\""), settings("[a]\nk="));
}
