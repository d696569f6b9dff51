//! The configuration schema, and how INI text fills it.

use vstd::prelude::*;
use crate::ini;
use crate::ini::{
    for_each_setting, is_word, parse_bitmask, parse_bool, parse_i32, parse_u32, Setting,
};
use crate::nonzero::NonZeroU32;
pub use crate::rates::RefreshRateMode;

verus! {

pub const DEFAULT_GAME_FPS: u32 = 60;

pub const DEFAULT_REPLAY_SKIP_FPS: u32 = 240;

pub const DEFAULT_REPLAY_SLOW_FPS: u32 = 30;

pub const DEFAULT_SESSIONS_TO_KEEP: u32 = 10;

#[derive(Clone, Copy, Debug, PartialEq, Eq, Structural)]
pub enum DisplayMode {
    Windowed,
    Fullscreen,
}

/// Window frame.
#[derive(Clone, Copy, Debug, PartialEq, Eq, Structural)]
pub enum WindowFrame {
    /// Title bar with system menu and minimize/maximize/close buttons.
    Framed,
    /// No caption or border, but a functional system menu.
    Frameless,
    /// Pure pixel rectangle; no frame or system menu.
    Borderless,
}

/// Realtime is deliberately omitted.
#[derive(Clone, Copy, Debug, PartialEq, Eq, Structural)]
pub enum PriorityClass {
    Unchanged,
    Idle,
    BelowNormal,
    Normal,
    AboveNormal,
    High,
}

/// The most verbose events that are logged.
#[derive(Clone, Copy, Debug, PartialEq, Eq, Structural)]
pub enum LevelFilter {
    Off,
    Error,
    Warn,
    Info,
    Debug,
    Trace,
}

#[derive(Clone, Copy, Debug, PartialEq, Eq, Structural)]
pub struct DisplayCfg {
    pub mode: DisplayMode,
    /// Ignored in windowed mode.
    pub refresh_rate: RefreshRateMode,
}

/// Window dimensions and frame default to game-derived values.
#[derive(Clone, Copy, Debug, PartialEq, Eq, Structural)]
pub struct WindowCfg {
    /// The requested outer window position. With neither set, placement is left to the
    /// system; setting only one of the pair treats the other as 0.
    pub x: Option<i32>,
    pub y: Option<i32>,
    pub width: Option<NonZeroU32>,
    pub height: Option<NonZeroU32>,
    pub frame: Option<WindowFrame>,
    pub always_on_top: bool,
}

/// Game logic is frame-locked at one tick per `Present`, so higher rates speed
/// everything up. A field of 0 disengages the pacer for that mode.
#[derive(Clone, Copy, Debug, PartialEq, Eq, Structural)]
pub struct FramerateCfg {
    pub game_fps: u32,
    pub replay_skip_fps: u32,
    pub replay_slow_fps: u32,
}

#[derive(Clone, Copy, Debug, PartialEq, Eq, Structural)]
pub struct InputCfg {
    /// Fold joystick POV hat / D-pad inputs into directions read by the game.
    pub dpad: bool,
}

#[derive(Clone, Copy, Debug, PartialEq, Eq, Structural)]
pub struct ProcessCfg {
    pub priority: PriorityClass,
    /// `None` leaves the scheduler default. A 32-bit process can't address cores beyond
    /// bit 31.
    pub affinity_mask: Option<NonZeroU32>,
}

#[derive(Debug, PartialEq, Eq)]
pub struct LogCfg {
    pub level: LevelFilter,
    pub sessions_to_keep: NonZeroU32,
    pub log_dir: Option<String>,
}

#[derive(Debug, PartialEq, Eq)]
pub struct CoreConfig {
    pub display: DisplayCfg,
    pub window: WindowCfg,
    pub framerate: FramerateCfg,
    pub input: InputCfg,
    pub process: ProcessCfg,
    pub log: LogCfg,
}

/// The content of a [`LogCfg`].
pub struct LogModel {
    pub level: LevelFilter,
    pub sessions_to_keep: NonZeroU32,
    pub log_dir: Option<Seq<char>>,
}

/// The content of a [`CoreConfig`].
pub struct CoreModel {
    pub display: DisplayCfg,
    pub window: WindowCfg,
    pub framerate: FramerateCfg,
    pub input: InputCfg,
    pub process: ProcessCfg,
    pub log: LogModel,
}

impl View for LogCfg {
    type V = LogModel;

    open spec fn view(&self) -> LogModel {
        LogModel {
            level: self.level,
            sessions_to_keep: self.sessions_to_keep,
            log_dir: match self.log_dir {
                Some(dir) => Some(dir@),
                None => None,
            },
        }
    }
}

impl View for CoreConfig {
    type V = CoreModel;

    open spec fn view(&self) -> CoreModel {
        CoreModel {
            display: self.display,
            window: self.window,
            framerate: self.framerate,
            input: self.input,
            process: self.process,
            log: self.log@,
        }
    }
}

impl CoreModel {
    /// The configuration when nothing is set.
    pub open spec fn defaults() -> CoreModel {
        CoreModel {
            display: DisplayCfg {
                mode: DisplayMode::Windowed,
                refresh_rate: RefreshRateMode::NativeMultiple,
            },
            window: WindowCfg {
                x: None,
                y: None,
                width: None,
                height: None,
                frame: None,
                always_on_top: false,
            },
            framerate: FramerateCfg {
                game_fps: DEFAULT_GAME_FPS,
                replay_skip_fps: DEFAULT_REPLAY_SKIP_FPS,
                replay_slow_fps: DEFAULT_REPLAY_SLOW_FPS,
            },
            input: InputCfg { dpad: true },
            process: ProcessCfg { priority: PriorityClass::Unchanged, affinity_mask: None },
            log: LogModel {
                level: LevelFilter::Info,
                sessions_to_keep: NonZeroU32::of(DEFAULT_SESSIONS_TO_KEEP),
                log_dir: None,
            },
        }
    }
}

impl Default for DisplayCfg {
    fn default() -> (cfg: DisplayCfg)
        ensures
            cfg == CoreModel::defaults().display,
    {
        DisplayCfg { mode: DisplayMode::Windowed, refresh_rate: RefreshRateMode::NativeMultiple }
    }
}

impl Default for WindowCfg {
    fn default() -> (cfg: WindowCfg)
        ensures
            cfg == CoreModel::defaults().window,
    {
        WindowCfg { x: None, y: None, width: None, height: None, frame: None, always_on_top: false }
    }
}

impl Default for FramerateCfg {
    fn default() -> (cfg: FramerateCfg)
        ensures
            cfg == CoreModel::defaults().framerate,
    {
        FramerateCfg {
            game_fps: DEFAULT_GAME_FPS,
            replay_skip_fps: DEFAULT_REPLAY_SKIP_FPS,
            replay_slow_fps: DEFAULT_REPLAY_SLOW_FPS,
        }
    }
}

impl Default for InputCfg {
    fn default() -> (cfg: InputCfg)
        ensures
            cfg == CoreModel::defaults().input,
    {
        InputCfg { dpad: true }
    }
}

impl Default for ProcessCfg {
    fn default() -> (cfg: ProcessCfg)
        ensures
            cfg == CoreModel::defaults().process,
    {
        ProcessCfg { priority: PriorityClass::Unchanged, affinity_mask: None }
    }
}

fn default_sessions() -> (n: NonZeroU32)
    ensures
        n == NonZeroU32::of(DEFAULT_SESSIONS_TO_KEEP),
{
    NonZeroU32::new(DEFAULT_SESSIONS_TO_KEEP).unwrap()
}

impl Default for LogCfg {
    fn default() -> (cfg: LogCfg)
        ensures
            cfg@ == CoreModel::defaults().log,
    {
        LogCfg { level: LevelFilter::Info, sessions_to_keep: default_sessions(), log_dir: None }
    }
}

impl Default for CoreConfig {
    fn default() -> (cfg: CoreConfig)
        ensures
            cfg@ == CoreModel::defaults(),
    {
        CoreConfig {
            display: DisplayCfg::default(),
            window: WindowCfg::default(),
            framerate: FramerateCfg::default(),
            input: InputCfg::default(),
            process: ProcessCfg::default(),
            log: LogCfg::default(),
        }
    }
}

/// A nonzero unsigned decimal number.
pub open spec fn nonzero_value(s: Seq<char>) -> Option<NonZeroU32> {
    match ini::unsigned_value(s, 10) {
        Some(n) if n != 0 => Some(NonZeroU32::of(n)),
        _ => None,
    }
}

pub fn parse_nonzero_u32(v: &str) -> (res: Option<NonZeroU32>)
    ensures
        res == nonzero_value(v@),
{
    match parse_u32(v) {
        Some(n) => NonZeroU32::new(n),
        None => None,
    }
}

pub open spec fn display_mode_value(s: Seq<char>) -> Option<DisplayMode> {
    let v = ini::lowered(s);
    if v == "windowed"@ {
        Some(DisplayMode::Windowed)
    } else if v == "fullscreen"@ {
        Some(DisplayMode::Fullscreen)
    } else {
        None
    }
}

pub fn parse_display_mode(v: &str) -> (res: Option<DisplayMode>)
    ensures
        res == display_mode_value(v@),
{
    if is_word(v, "windowed") {
        Some(DisplayMode::Windowed)
    } else if is_word(v, "fullscreen") {
        Some(DisplayMode::Fullscreen)
    } else {
        None
    }
}

pub open spec fn refresh_rate_value(s: Seq<char>) -> Option<RefreshRateMode> {
    let v = ini::lowered(s);
    if v == "native"@ {
        Some(RefreshRateMode::Native)
    } else if v == "nativemultiple"@ {
        Some(RefreshRateMode::NativeMultiple)
    } else {
        match nonzero_value(s) {
            Some(n) => Some(RefreshRateMode::Fixed(n)),
            None => None,
        }
    }
}

pub fn parse_refresh_rate(v: &str) -> (res: Option<RefreshRateMode>)
    ensures
        res == refresh_rate_value(v@),
{
    if is_word(v, "native") {
        Some(RefreshRateMode::Native)
    } else if is_word(v, "nativemultiple") {
        Some(RefreshRateMode::NativeMultiple)
    } else {
        match parse_nonzero_u32(v) {
            Some(n) => Some(RefreshRateMode::Fixed(n)),
            None => None,
        }
    }
}

pub open spec fn window_frame_value(s: Seq<char>) -> Option<WindowFrame> {
    let v = ini::lowered(s);
    if v == "framed"@ {
        Some(WindowFrame::Framed)
    } else if v == "frameless"@ {
        Some(WindowFrame::Frameless)
    } else if v == "borderless"@ {
        Some(WindowFrame::Borderless)
    } else {
        None
    }
}

pub fn parse_window_frame(v: &str) -> (res: Option<WindowFrame>)
    ensures
        res == window_frame_value(v@),
{
    if is_word(v, "framed") {
        Some(WindowFrame::Framed)
    } else if is_word(v, "frameless") {
        Some(WindowFrame::Frameless)
    } else if is_word(v, "borderless") {
        Some(WindowFrame::Borderless)
    } else {
        None
    }
}

pub open spec fn priority_value(s: Seq<char>) -> Option<PriorityClass> {
    let v = ini::lowered(s);
    if v == "unchanged"@ {
        Some(PriorityClass::Unchanged)
    } else if v == "idle"@ {
        Some(PriorityClass::Idle)
    } else if v == "belownormal"@ {
        Some(PriorityClass::BelowNormal)
    } else if v == "normal"@ {
        Some(PriorityClass::Normal)
    } else if v == "abovenormal"@ {
        Some(PriorityClass::AboveNormal)
    } else if v == "high"@ {
        Some(PriorityClass::High)
    } else {
        None
    }
}

pub fn parse_priority_class(v: &str) -> (res: Option<PriorityClass>)
    ensures
        res == priority_value(v@),
{
    if is_word(v, "unchanged") {
        Some(PriorityClass::Unchanged)
    } else if is_word(v, "idle") {
        Some(PriorityClass::Idle)
    } else if is_word(v, "belownormal") {
        Some(PriorityClass::BelowNormal)
    } else if is_word(v, "normal") {
        Some(PriorityClass::Normal)
    } else if is_word(v, "abovenormal") {
        Some(PriorityClass::AboveNormal)
    } else if is_word(v, "high") {
        Some(PriorityClass::High)
    } else {
        None
    }
}

pub open spec fn level_value(s: Seq<char>) -> Option<LevelFilter> {
    let v = ini::lowered(s);
    if v == "off"@ {
        Some(LevelFilter::Off)
    } else if v == "error"@ {
        Some(LevelFilter::Error)
    } else if v == "warn"@ {
        Some(LevelFilter::Warn)
    } else if v == "info"@ {
        Some(LevelFilter::Info)
    } else if v == "debug"@ {
        Some(LevelFilter::Debug)
    } else if v == "trace"@ {
        Some(LevelFilter::Trace)
    } else {
        None
    }
}

pub fn parse_level(v: &str) -> (res: Option<LevelFilter>)
    ensures
        res == level_value(v@),
{
    if is_word(v, "off") {
        Some(LevelFilter::Off)
    } else if is_word(v, "error") {
        Some(LevelFilter::Error)
    } else if is_word(v, "warn") {
        Some(LevelFilter::Warn)
    } else if is_word(v, "info") {
        Some(LevelFilter::Info)
    } else if is_word(v, "debug") {
        Some(LevelFilter::Debug)
    } else if is_word(v, "trace") {
        Some(LevelFilter::Trace)
    } else {
        None
    }
}

/// `[display]` after `k = v`. A value that does not parse leaves the setting alone.
pub open spec fn display_after(cfg: DisplayCfg, k: Seq<char>, v: Seq<char>) -> DisplayCfg {
    let key = ini::lowered(k);
    if key == "mode"@ {
        match display_mode_value(v) {
            Some(mode) => DisplayCfg { mode, ..cfg },
            None => cfg,
        }
    } else if key == "refresh_rate"@ {
        match refresh_rate_value(v) {
            Some(refresh_rate) => DisplayCfg { refresh_rate, ..cfg },
            None => cfg,
        }
    } else {
        cfg
    }
}

pub fn apply_display(cfg: &mut DisplayCfg, k: &str, v: &str)
    ensures
        *final(cfg) == display_after(*old(cfg), k@, v@),
{
    if is_word(k, "mode") {
        if let Some(mode) = parse_display_mode(v) {
            cfg.mode = mode;
        }
    } else if is_word(k, "refresh_rate") {
        if let Some(refresh_rate) = parse_refresh_rate(v) {
            cfg.refresh_rate = refresh_rate;
        }
    }
}

/// `[window]` after `k = v`. A value that does not parse unsets the setting.
pub open spec fn window_after(cfg: WindowCfg, k: Seq<char>, v: Seq<char>) -> WindowCfg {
    let key = ini::lowered(k);
    if key == "x"@ {
        WindowCfg { x: ini::signed_value(v), ..cfg }
    } else if key == "y"@ {
        WindowCfg { y: ini::signed_value(v), ..cfg }
    } else if key == "width"@ {
        WindowCfg { width: nonzero_value(v), ..cfg }
    } else if key == "height"@ {
        WindowCfg { height: nonzero_value(v), ..cfg }
    } else if key == "frame"@ {
        WindowCfg { frame: window_frame_value(v), ..cfg }
    } else if key == "always_on_top"@ {
        WindowCfg { always_on_top: ini::bool_value(v) == Some(true), ..cfg }
    } else {
        cfg
    }
}

pub fn apply_window(cfg: &mut WindowCfg, k: &str, v: &str)
    ensures
        *final(cfg) == window_after(*old(cfg), k@, v@),
{
    if is_word(k, "x") {
        cfg.x = parse_i32(v);
    } else if is_word(k, "y") {
        cfg.y = parse_i32(v);
    } else if is_word(k, "width") {
        cfg.width = parse_nonzero_u32(v);
    } else if is_word(k, "height") {
        cfg.height = parse_nonzero_u32(v);
    } else if is_word(k, "frame") {
        cfg.frame = parse_window_frame(v);
    } else if is_word(k, "always_on_top") {
        cfg.always_on_top = match parse_bool(v) {
            Some(b) => b,
            None => false,
        };
    }
}

/// A rate, or `default` for one that does not parse.
pub open spec fn fps_value(v: Seq<char>, default: u32) -> u32 {
    match ini::unsigned_value(v, 10) {
        Some(n) => n,
        None => default,
    }
}

fn parse_fps(v: &str, default: u32) -> (res: u32)
    ensures
        res == fps_value(v@, default),
{
    match parse_u32(v) {
        Some(n) => n,
        None => default,
    }
}

/// `[framerate]` after `k = v`. A value that does not parse sets the default.
pub open spec fn framerate_after(cfg: FramerateCfg, k: Seq<char>, v: Seq<char>) -> FramerateCfg {
    let key = ini::lowered(k);
    if key == "game_fps"@ {
        FramerateCfg { game_fps: fps_value(v, DEFAULT_GAME_FPS), ..cfg }
    } else if key == "replay_skip_fps"@ {
        FramerateCfg { replay_skip_fps: fps_value(v, DEFAULT_REPLAY_SKIP_FPS), ..cfg }
    } else if key == "replay_slow_fps"@ {
        FramerateCfg { replay_slow_fps: fps_value(v, DEFAULT_REPLAY_SLOW_FPS), ..cfg }
    } else {
        cfg
    }
}

pub fn apply_framerate(cfg: &mut FramerateCfg, k: &str, v: &str)
    ensures
        *final(cfg) == framerate_after(*old(cfg), k@, v@),
{
    if is_word(k, "game_fps") {
        cfg.game_fps = parse_fps(v, DEFAULT_GAME_FPS);
    } else if is_word(k, "replay_skip_fps") {
        cfg.replay_skip_fps = parse_fps(v, DEFAULT_REPLAY_SKIP_FPS);
    } else if is_word(k, "replay_slow_fps") {
        cfg.replay_slow_fps = parse_fps(v, DEFAULT_REPLAY_SLOW_FPS);
    }
}

/// `[input]` after `k = v`. A value that does not parse leaves the setting alone.
pub open spec fn input_after(cfg: InputCfg, k: Seq<char>, v: Seq<char>) -> InputCfg {
    if ini::lowered(k) == "dpad"@ && ini::bool_value(v) is Some {
        InputCfg { dpad: ini::bool_value(v)->0 }
    } else {
        cfg
    }
}

pub fn apply_input(cfg: &mut InputCfg, k: &str, v: &str)
    ensures
        *final(cfg) == input_after(*old(cfg), k@, v@),
{
    if is_word(k, "dpad") {
        if let Some(b) = parse_bool(v) {
            cfg.dpad = b;
        }
    }
}

/// `[process]` after `k = v`. A mask that is zero or does not parse is no mask.
pub open spec fn process_after(cfg: ProcessCfg, k: Seq<char>, v: Seq<char>) -> ProcessCfg {
    let key = ini::lowered(k);
    if key == "priority"@ {
        match priority_value(v) {
            Some(priority) => ProcessCfg { priority, ..cfg },
            None => cfg,
        }
    } else if key == "affinity_mask"@ {
        ProcessCfg {
            affinity_mask: match ini::bitmask_value(v) {
                Some(n) if n != 0 => Some(NonZeroU32::of(n)),
                _ => None,
            },
            ..cfg
        }
    } else {
        cfg
    }
}

pub fn apply_process(cfg: &mut ProcessCfg, k: &str, v: &str)
    ensures
        *final(cfg) == process_after(*old(cfg), k@, v@),
{
    if is_word(k, "priority") {
        if let Some(priority) = parse_priority_class(v) {
            cfg.priority = priority;
        }
    } else if is_word(k, "affinity_mask") {
        cfg.affinity_mask = match parse_bitmask(v) {
            Some(n) => NonZeroU32::new(n),
            None => None,
        };
    }
}

/// `[log]` after `k = v`. Keeping no sessions would delete the one being written, so it
/// falls back to the default. An empty directory is none.
pub open spec fn log_after(cfg: LogModel, k: Seq<char>, v: Seq<char>) -> LogModel {
    let key = ini::lowered(k);
    if key == "level"@ {
        match level_value(v) {
            Some(level) => LogModel { level, ..cfg },
            None => cfg,
        }
    } else if key == "sessions_to_keep"@ {
        LogModel {
            sessions_to_keep: match nonzero_value(v) {
                Some(n) => n,
                None => NonZeroU32::of(DEFAULT_SESSIONS_TO_KEEP),
            },
            ..cfg
        }
    } else if key == "log_dir"@ {
        LogModel {
            log_dir: if v.len() == 0 {
                None
            } else {
                Some(v)
            },
            ..cfg
        }
    } else {
        cfg
    }
}

pub fn apply_log(cfg: &mut LogCfg, k: &str, v: &str)
    ensures
        final(cfg)@ == log_after(old(cfg)@, k@, v@),
{
    if is_word(k, "level") {
        if let Some(level) = parse_level(v) {
            cfg.level = level;
        }
    } else if is_word(k, "sessions_to_keep") {
        cfg.sessions_to_keep = match parse_nonzero_u32(v) {
            Some(n) => n,
            None => default_sessions(),
        };
    } else if is_word(k, "log_dir") {
        cfg.log_dir = if v.is_empty() {
            None
        } else {
            Some(v.to_owned())
        };
    }
}

/// The configuration after one setting. Unknown sections and keys change nothing.
pub open spec fn core_after(
    core: CoreModel,
    section: Seq<char>,
    k: Seq<char>,
    v: Seq<char>,
) -> CoreModel {
    let name = ini::lowered(section);
    if name == "display"@ {
        CoreModel { display: display_after(core.display, k, v), ..core }
    } else if name == "window"@ {
        CoreModel { window: window_after(core.window, k, v), ..core }
    } else if name == "framerate"@ {
        CoreModel { framerate: framerate_after(core.framerate, k, v), ..core }
    } else if name == "input"@ {
        CoreModel { input: input_after(core.input, k, v), ..core }
    } else if name == "process"@ {
        CoreModel { process: process_after(core.process, k, v), ..core }
    } else if name == "log"@ {
        CoreModel { log: log_after(core.log, k, v), ..core }
    } else {
        core
    }
}

/// Applies one setting to the matching core section.
pub fn apply_core_setting(core: &mut CoreConfig, section: &str, k: &str, v: &str)
    ensures
        final(core)@ == core_after(old(core)@, section@, k@, v@),
{
    if is_word(section, "display") {
        apply_display(&mut core.display, k, v);
    } else if is_word(section, "window") {
        apply_window(&mut core.window, k, v);
    } else if is_word(section, "framerate") {
        apply_framerate(&mut core.framerate, k, v);
    } else if is_word(section, "input") {
        apply_input(&mut core.input, k, v);
    } else if is_word(section, "process") {
        apply_process(&mut core.process, k, v);
    } else if is_word(section, "log") {
        apply_log(&mut core.log, k, v);
    }
}

/// The configuration after `settings`, starting from the defaults; later settings win.
pub open spec fn core_of(settings: Seq<(Seq<char>, Seq<char>, Seq<char>)>) -> CoreModel
    decreases settings.len(),
{
    if settings.len() == 0 {
        CoreModel::defaults()
    } else {
        let (section, k, v) = settings.last();
        core_after(core_of(settings.drop_last()), section, k, v)
    }
}

impl CoreConfig {
    /// Parses INI text for games without settings of their own.
    pub fn parse(text: &str) -> (core: CoreConfig)
        ensures
            core@ == core_of(ini::settings_of(text@)),
    {
        let settings = for_each_setting(text);
        let mut core = CoreConfig::default();
        let ghost all = settings@.map_values(|s: Setting| s@);
        let mut i: usize = 0;
        while i < settings.len()
            invariant
                i <= settings@.len(),
                all == settings@.map_values(|s: Setting| s@),
                core@ == core_of(all.take(i as int)),
            decreases settings.len() - i,
        {
            proof {
                let next = all.take(i + 1);
                assert(next.drop_last() =~= all.take(i as int));
                assert(next.last() == settings@[i as int]@);
            }
            let s = &settings[i];
            apply_core_setting(&mut core, s.section.as_str(), s.key.as_str(), s.value.as_str());
            i += 1;
        }
        assert(all.take(i as int) =~= all);
        core
    }
}

/// A setting in a section that nothing knows changes nothing.
pub proof fn lemma_unknown_section_ignored(
    core: CoreModel,
    section: Seq<char>,
    k: Seq<char>,
    v: Seq<char>,
)
    requires
        ini::lowered(section) != "display"@,
        ini::lowered(section) != "window"@,
        ini::lowered(section) != "framerate"@,
        ini::lowered(section) != "input"@,
        ini::lowered(section) != "process"@,
        ini::lowered(section) != "log"@,
    ensures
        core_after(core, section, k, v) == core,
{
}

/// Text without settings, empty text above all, gives the defaults.
pub proof fn lemma_no_settings_no_change(text: Seq<char>)
    requires
        ini::settings_of(text).len() == 0,
    ensures
        core_of(ini::settings_of(text)) == CoreModel::defaults(),
        ini::settings_of(seq![]).len() == 0,
{
    assert(ini::lines_of(seq![]) =~= seq![]);
}

/// Back buffer size for games with a `[display] resolution` setting.
#[derive(Clone, Copy, Debug, PartialEq, Eq, Structural)]
pub enum Resolution {
    R640x480,
    R960x720,
    R1280x960,
}

/// [`DisplayMode`] extended with borderless.
#[derive(Clone, Copy, Debug, PartialEq, Eq, Structural)]
pub enum DisplayModeExt {
    Windowed,
    Fullscreen,
    Borderless,
}

impl Default for Resolution {
    fn default() -> (res: Resolution)
        ensures
            res == Resolution::R1280x960,
    {
        Resolution::R1280x960
    }
}

impl Default for DisplayModeExt {
    fn default() -> (mode: DisplayModeExt)
        ensures
            mode == DisplayModeExt::Windowed,
    {
        DisplayModeExt::Windowed
    }
}

impl Resolution {
    /// The sizes are numbered from the smallest.
    pub open spec fn number(self) -> u8 {
        match self {
            Resolution::R640x480 => 0,
            Resolution::R960x720 => 1,
            Resolution::R1280x960 => 2,
        }
    }

    pub fn index(self) -> (res: u8)
        ensures
            res == self.number(),
    {
        match self {
            Resolution::R640x480 => 0,
            Resolution::R960x720 => 1,
            Resolution::R1280x960 => 2,
        }
    }

    /// The radio button for this size and `mode`: three for fullscreen, three for windowed,
    /// and one for borderless whatever the size.
    pub open spec fn radio(self, mode: DisplayModeExt) -> u8 {
        match mode {
            DisplayModeExt::Fullscreen => self.number(),
            DisplayModeExt::Windowed => (self.number() + 3) as u8,
            DisplayModeExt::Borderless => 8,
        }
    }

    /// The render scale for this size and `mode`.
    pub open spec fn scale(self, mode: DisplayModeExt) -> u8 {
        match mode {
            DisplayModeExt::Borderless => 5,
            _ => self.number(),
        }
    }

    /// Returns the index of the resolution radio button for this size and `mode` in the
    /// option-dialog layout used by th18 and th20.
    pub fn radio_index(self, mode: DisplayModeExt) -> (res: u8)
        ensures
            res == self.radio(mode),
    {
        match (mode, self) {
            (DisplayModeExt::Fullscreen, Resolution::R640x480) => 0,
            (DisplayModeExt::Fullscreen, Resolution::R960x720) => 1,
            (DisplayModeExt::Fullscreen, Resolution::R1280x960) => 2,
            (DisplayModeExt::Windowed, Resolution::R640x480) => 3,
            (DisplayModeExt::Windowed, Resolution::R960x720) => 4,
            (DisplayModeExt::Windowed, Resolution::R1280x960) => 5,
            (DisplayModeExt::Borderless, _) => 8,
        }
    }

    /// Returns the index of the render scale for this size and `mode` into the render scale
    /// table used by th18 and th20.
    pub fn scale_index(self, mode: DisplayModeExt) -> (res: u8)
        ensures
            res == self.scale(mode),
    {
        let radio: u8 = self.radio_index(mode);
        if radio <= 2 {
            radio
        } else if radio <= 5 {
            radio - 3
        } else {
            5
        }
    }

    /// Width and height.
    pub open spec fn size(self) -> (u32, u32) {
        match self {
            Resolution::R640x480 => (640u32, 480u32),
            Resolution::R960x720 => (960u32, 720u32),
            Resolution::R1280x960 => (1280u32, 960u32),
        }
    }

    pub fn dimensions(self) -> (res: (u32, u32))
        ensures
            res == self.size(),
    {
        match self {
            Resolution::R640x480 => (640, 480),
            Resolution::R960x720 => (960, 720),
            Resolution::R1280x960 => (1280, 960),
        }
    }
}

impl DisplayModeExt {
    /// Borderless is fullscreen to the rest.
    pub open spec fn core_mode(self) -> DisplayMode {
        match self {
            DisplayModeExt::Windowed => DisplayMode::Windowed,
            _ => DisplayMode::Fullscreen,
        }
    }

    pub fn to_core(self) -> (mode: DisplayMode)
        ensures
            mode == self.core_mode(),
    {
        match self {
            DisplayModeExt::Windowed => DisplayMode::Windowed,
            DisplayModeExt::Fullscreen | DisplayModeExt::Borderless => DisplayMode::Fullscreen,
        }
    }
}

/// The two dialog indices agree: the same size has the same scale windowed and
/// fullscreen, and all sizes collapse onto one pair when borderless.
pub proof fn lemma_dialog_indices_agree(a: Resolution, b: Resolution)
    ensures
        a.scale(DisplayModeExt::Windowed) == a.scale(DisplayModeExt::Fullscreen),
        a.scale(DisplayModeExt::Fullscreen) == a.radio(DisplayModeExt::Fullscreen),
        a.radio(DisplayModeExt::Borderless) == b.radio(DisplayModeExt::Borderless),
        a.scale(DisplayModeExt::Borderless) == b.scale(DisplayModeExt::Borderless),
        a != b ==> a.radio(DisplayModeExt::Windowed) != b.radio(DisplayModeExt::Windowed),
{
}

pub open spec fn resolution_value(s: Seq<char>) -> Option<Resolution> {
    let v = ini::lowered(s);
    if v == "640x480"@ {
        Some(Resolution::R640x480)
    } else if v == "960x720"@ {
        Some(Resolution::R960x720)
    } else if v == "1280x960"@ {
        Some(Resolution::R1280x960)
    } else {
        None
    }
}

pub fn parse_resolution(v: &str) -> (res: Option<Resolution>)
    ensures
        res == resolution_value(v@),
{
    if is_word(v, "640x480") {
        Some(Resolution::R640x480)
    } else if is_word(v, "960x720") {
        Some(Resolution::R960x720)
    } else if is_word(v, "1280x960") {
        Some(Resolution::R1280x960)
    } else {
        None
    }
}

pub open spec fn display_mode_ext_value(s: Seq<char>) -> Option<DisplayModeExt> {
    let v = ini::lowered(s);
    if v == "windowed"@ {
        Some(DisplayModeExt::Windowed)
    } else if v == "fullscreen"@ {
        Some(DisplayModeExt::Fullscreen)
    } else if v == "borderless"@ {
        Some(DisplayModeExt::Borderless)
    } else {
        None
    }
}

pub fn parse_display_mode_ext(v: &str) -> (res: Option<DisplayModeExt>)
    ensures
        res == display_mode_ext_value(v@),
{
    if is_word(v, "windowed") {
        Some(DisplayModeExt::Windowed)
    } else if is_word(v, "fullscreen") {
        Some(DisplayModeExt::Fullscreen)
    } else if is_word(v, "borderless") {
        Some(DisplayModeExt::Borderless)
    } else {
        None
    }
}

/// Game-specific configuration for the games whose startup dialog exposes only a
/// resolution choice (th14-th17).
#[derive(Clone, Copy, Debug, PartialEq, Eq, Structural)]
pub struct ResolutionConfig {
    pub resolution: Resolution,
}

impl Default for ResolutionConfig {
    fn default() -> (cfg: ResolutionConfig)
        ensures
            cfg.resolution == Resolution::R1280x960,
    {
        ResolutionConfig { resolution: Resolution::default() }
    }
}

/// Whether a setting is `[display]` with key `key`.
pub open spec fn is_display_key(
    setting: (Seq<char>, Seq<char>, Seq<char>),
    key: Seq<char>,
) -> bool {
    ini::lowered(setting.0) == "display"@ && ini::lowered(setting.1) == key
}

/// The resolution and core configuration after `settings`.
pub open spec fn resolution_of(settings: Seq<(Seq<char>, Seq<char>, Seq<char>)>) -> (
    Resolution,
    CoreModel,
)
    decreases settings.len(),
{
    if settings.len() == 0 {
        (Resolution::R1280x960, CoreModel::defaults())
    } else {
        let (resolution, core) = resolution_of(settings.drop_last());
        let (section, k, v) = settings.last();
        if is_display_key(settings.last(), "resolution"@) {
            match resolution_value(v) {
                Some(r) => (r, core),
                None => (resolution, core),
            }
        } else {
            (resolution, core_after(core, section, k, v))
        }
    }
}

impl ResolutionConfig {
    /// Parses INI text into this configuration plus the core configuration, with defaults
    /// for what the text omits.
    pub fn parse(text: &str) -> (res: (ResolutionConfig, CoreConfig))
        ensures
            (res.0.resolution, res.1@) == resolution_of(ini::settings_of(text@)),
    {
        let settings = for_each_setting(text);
        let mut game = ResolutionConfig::default();
        let mut core = CoreConfig::default();
        let ghost all = settings@.map_values(|s: Setting| s@);
        let mut i: usize = 0;
        while i < settings.len()
            invariant
                i <= settings@.len(),
                all == settings@.map_values(|s: Setting| s@),
                (game.resolution, core@) == resolution_of(all.take(i as int)),
            decreases settings.len() - i,
        {
            proof {
                let next = all.take(i + 1);
                assert(next.drop_last() =~= all.take(i as int));
                assert(next.last() == settings@[i as int]@);
            }
            let s = &settings[i];
            if is_word(s.section.as_str(), "display") && is_word(s.key.as_str(), "resolution") {
                if let Some(r) = parse_resolution(s.value.as_str()) {
                    game.resolution = r;
                }
            } else {
                apply_core_setting(&mut core, s.section.as_str(), s.key.as_str(), s.value.as_str());
            }
            i += 1;
        }
        assert(all.take(i as int) =~= all);
        (game, core)
    }
}

/// [`ResolutionConfig`] extended with the game's own display mode, for the games whose
/// `[display] mode` includes borderless (th18, th20).
#[derive(Clone, Copy, Debug, PartialEq, Eq, Structural)]
pub struct ResolutionConfigExt {
    pub display_mode: DisplayModeExt,
    pub resolution: Resolution,
}

impl Default for ResolutionConfigExt {
    fn default() -> (cfg: ResolutionConfigExt)
        ensures
            cfg == (ResolutionConfigExt {
                display_mode: DisplayModeExt::Windowed,
                resolution: Resolution::R1280x960,
            }),
    {
        ResolutionConfigExt {
            display_mode: DisplayModeExt::default(),
            resolution: Resolution::default(),
        }
    }
}

/// The game and core configuration after `settings`, before the core display mode is
/// derived from the game's.
pub open spec fn resolution_ext_of(settings: Seq<(Seq<char>, Seq<char>, Seq<char>)>) -> (
    ResolutionConfigExt,
    CoreModel,
)
    decreases settings.len(),
{
    if settings.len() == 0 {
        (
            ResolutionConfigExt {
                display_mode: DisplayModeExt::Windowed,
                resolution: Resolution::R1280x960,
            },
            CoreModel::defaults(),
        )
    } else {
        let (game, core) = resolution_ext_of(settings.drop_last());
        let (section, k, v) = settings.last();
        if is_display_key(settings.last(), "mode"@) {
            match display_mode_ext_value(v) {
                Some(display_mode) => (ResolutionConfigExt { display_mode, ..game }, core),
                None => (game, core),
            }
        } else if is_display_key(settings.last(), "resolution"@) {
            match resolution_value(v) {
                Some(resolution) => (ResolutionConfigExt { resolution, ..game }, core),
                None => (game, core),
            }
        } else {
            (game, core_after(core, section, k, v))
        }
    }
}

impl ResolutionConfigExt {
    /// Parses INI text into this configuration plus the core configuration, with defaults
    /// for what the text omits. The core display mode is always that of the game's.
    pub fn parse(text: &str) -> (res: (ResolutionConfigExt, CoreConfig))
        ensures
            ({
                let (game, core) = resolution_ext_of(ini::settings_of(text@));
                &&& res.0 == game
                &&& res.1@ == CoreModel {
                    display: DisplayCfg {
                        mode: game.display_mode.core_mode(),
                        ..core.display
                    },
                    ..core
                }
            }),
            res.1.display.mode == res.0.display_mode.core_mode(),
    {
        let settings = for_each_setting(text);
        let mut game = ResolutionConfigExt::default();
        let mut core = CoreConfig::default();
        let ghost all = settings@.map_values(|s: Setting| s@);
        let mut i: usize = 0;
        while i < settings.len()
            invariant
                i <= settings@.len(),
                all == settings@.map_values(|s: Setting| s@),
                (game, core@) == resolution_ext_of(all.take(i as int)),
            decreases settings.len() - i,
        {
            proof {
                let next = all.take(i + 1);
                assert(next.drop_last() =~= all.take(i as int));
                assert(next.last() == settings@[i as int]@);
            }
            let s = &settings[i];
            if is_word(s.section.as_str(), "display") && is_word(s.key.as_str(), "mode") {
                if let Some(m) = parse_display_mode_ext(s.value.as_str()) {
                    game.display_mode = m;
                }
            } else if is_word(s.section.as_str(), "display") && is_word(
                s.key.as_str(),
                "resolution",
            ) {
                if let Some(r) = parse_resolution(s.value.as_str()) {
                    game.resolution = r;
                }
            } else {
                apply_core_setting(&mut core, s.section.as_str(), s.key.as_str(), s.value.as_str());
            }
            i += 1;
        }
        assert(all.take(i as int) =~= all);
        core.display.mode = game.display_mode.to_core();
        (game, core)
    }
}

/// The defaults: a window that the game places, the highest multiple of 60 Hz, 60 frames
/// per second (240 and 30 in a replay that is skipped or slowed), directions from the
/// D-pad, the process as the system started it, and ten sessions of a log of events.
pub proof fn lemma_defaults()
    ensures
        ({
            let d = CoreModel::defaults();
            &&& d.display.mode == DisplayMode::Windowed
            &&& d.display.refresh_rate == RefreshRateMode::NativeMultiple
            &&& d.window.x is None && d.window.y is None
            &&& d.window.width is None && d.window.height is None
            &&& d.window.frame is None
            &&& !d.window.always_on_top
            &&& d.framerate.game_fps == 60
            &&& d.framerate.replay_skip_fps == 240
            &&& d.framerate.replay_slow_fps == 30
            &&& d.input.dpad
            &&& d.process.priority == PriorityClass::Unchanged
            &&& d.process.affinity_mask is None
            &&& d.log.level == LevelFilter::Info
            &&& d.log.sessions_to_keep@ == 10
            &&& d.log.log_dir is None
        }),
{
    crate::nonzero::lemma_of_u32(10, NonZeroU32::of(10));
}

/// A nonzero number is read where a number other than zero is.
pub proof fn lemma_nonzero_value(s: Seq<char>)
    ensures
        match nonzero_value(s) {
            Some(n) => n@ != 0 && ini::unsigned_value(s, 10) == Some(n@),
            None => ini::unsigned_value(s, 10) is None || ini::unsigned_value(s, 10) == Some(0u32),
        },
{
    if let Some(n) = ini::unsigned_value(s, 10) {
        crate::nonzero::lemma_of_u32(n, NonZeroU32::of(n));
    }
}

/// A key of the display section sets its own field, to a value that can be read; nothing
/// else changes.
pub proof fn lemma_display_settings(cfg: DisplayCfg, k: Seq<char>, v: Seq<char>)
    ensures
        ({
            let after = display_after(cfg, k, v);
            let key = ini::lowered(k);
            &&& after.mode == (if key == "mode"@ && display_mode_value(v) is Some {
                display_mode_value(v)->0
            } else {
                cfg.mode
            })
            &&& after.refresh_rate == (if key == "refresh_rate"@ && refresh_rate_value(v) is Some {
                refresh_rate_value(v)->0
            } else {
                cfg.refresh_rate
            })
        }),
{
    reveal_strlit("mode");
    assert("mode"@.len() == 4);
    reveal_strlit("refresh_rate");
    assert("refresh_rate"@.len() == 12);
}

/// A key of the window section sets its own field; a value that cannot be read leaves the
/// choice to the game.
pub proof fn lemma_window_settings(cfg: WindowCfg, k: Seq<char>, v: Seq<char>)
    ensures
        ({
            let after = window_after(cfg, k, v);
            let key = ini::lowered(k);
            &&& after.x == (if key == "x"@ {
                ini::signed_value(v)
            } else {
                cfg.x
            })
            &&& after.y == (if key == "y"@ {
                ini::signed_value(v)
            } else {
                cfg.y
            })
            &&& after.width == (if key == "width"@ {
                nonzero_value(v)
            } else {
                cfg.width
            })
            &&& after.height == (if key == "height"@ {
                nonzero_value(v)
            } else {
                cfg.height
            })
            &&& after.frame == (if key == "frame"@ {
                window_frame_value(v)
            } else {
                cfg.frame
            })
            &&& after.always_on_top == (if key == "always_on_top"@ {
                ini::bool_value(v) == Some(true)
            } else {
                cfg.always_on_top
            })
        }),
{
    reveal_strlit("x");
    assert("x"@.len() == 1);
    reveal_strlit("y");
    assert("y"@.len() == 1);
    reveal_strlit("width");
    assert("width"@.len() == 5);
    reveal_strlit("height");
    assert("height"@.len() == 6);
    reveal_strlit("frame");
    assert("frame"@.len() == 5);
    reveal_strlit("always_on_top");
    assert("always_on_top"@.len() == 13);
    let key = ini::lowered(k);
    assert("x"@[0] != "y"@[0]);
    assert(key == "width"@ ==> key.len() == 5 && key[0] == 'w');
    assert(key == "frame"@ ==> key.len() == 5 && key[0] == 'f');
}

/// A key of the framerate section sets its own field; what is no number sets the default.
pub proof fn lemma_framerate_settings(cfg: FramerateCfg, k: Seq<char>, v: Seq<char>)
    ensures
        ({
            let after = framerate_after(cfg, k, v);
            let key = ini::lowered(k);
            let n = ini::unsigned_value(v, 10);
            &&& after.game_fps == (if key != "game_fps"@ {
                cfg.game_fps
            } else if n is Some {
                n->0
            } else {
                60
            })
            &&& after.replay_skip_fps == (if key != "replay_skip_fps"@ {
                cfg.replay_skip_fps
            } else if n is Some {
                n->0
            } else {
                240
            })
            &&& after.replay_slow_fps == (if key != "replay_slow_fps"@ {
                cfg.replay_slow_fps
            } else if n is Some {
                n->0
            } else {
                30
            })
        }),
{
    reveal_strlit("game_fps");
    assert("game_fps"@.len() == 8);
    reveal_strlit("replay_skip_fps");
    assert("replay_skip_fps"@.len() == 15);
    reveal_strlit("replay_slow_fps");
    assert("replay_slow_fps"@.len() == 15);
    assert("replay_skip_fps"@[8] != "replay_slow_fps"@[8]);
}

/// The D-pad follows its key where the value is a switch.
pub proof fn lemma_input_settings(cfg: InputCfg, k: Seq<char>, v: Seq<char>)
    ensures
        input_after(cfg, k, v).dpad == (if ini::lowered(k) == "dpad"@ && ini::bool_value(v)
            is Some {
            ini::bool_value(v)->0
        } else {
            cfg.dpad
        }),
{
}

/// A key of the process section sets its own field: the priority to a class that can be
/// read, the mask to what is read of it, where no core at all stands for no mask.
pub proof fn lemma_process_settings(cfg: ProcessCfg, k: Seq<char>, v: Seq<char>)
    ensures
        ({
            let after = process_after(cfg, k, v);
            let key = ini::lowered(k);
            &&& after.priority == (if key == "priority"@ && priority_value(v) is Some {
                priority_value(v)->0
            } else {
                cfg.priority
            })
            &&& key != "affinity_mask"@ ==> after.affinity_mask == cfg.affinity_mask
            &&& key == "affinity_mask"@ ==> match after.affinity_mask {
                Some(n) => n@ != 0 && ini::bitmask_value(v) == Some(n@),
                None => ini::bitmask_value(v) is None || ini::bitmask_value(v) == Some(0u32),
            }
        }),
{
    reveal_strlit("priority");
    assert("priority"@.len() == 8);
    reveal_strlit("affinity_mask");
    assert("affinity_mask"@.len() == 13);
    if let Some(n) = ini::bitmask_value(v) {
        crate::nonzero::lemma_of_u32(n, NonZeroU32::of(n));
    }
}

/// A key of the log section sets its own field: the level to one that can be read, the
/// sessions to a number or the default, the directory to any path.
pub proof fn lemma_log_settings(cfg: LogModel, k: Seq<char>, v: Seq<char>)
    ensures
        ({
            let after = log_after(cfg, k, v);
            let key = ini::lowered(k);
            &&& after.level == (if key == "level"@ && level_value(v) is Some {
                level_value(v)->0
            } else {
                cfg.level
            })
            &&& key != "sessions_to_keep"@ ==> after.sessions_to_keep == cfg.sessions_to_keep
            &&& key == "sessions_to_keep"@ ==> after.sessions_to_keep@ == (if nonzero_value(v)
                is Some {
                nonzero_value(v)->0@
            } else {
                10
            })
            &&& key != "log_dir"@ ==> after.log_dir == cfg.log_dir
            &&& key == "log_dir"@ ==> after.log_dir == (if v.len() > 0 {
                Some(v)
            } else {
                None
            })
        }),
{
    reveal_strlit("level");
    assert("level"@.len() == 5);
    reveal_strlit("sessions_to_keep");
    assert("sessions_to_keep"@.len() == 16);
    reveal_strlit("log_dir");
    assert("log_dir"@.len() == 7);
    crate::nonzero::lemma_of_u32(10, NonZeroU32::of(10));
}

/// A setting reaches the part of the configuration that its section names, and no other.
pub proof fn lemma_sections(core: CoreModel, section: Seq<char>, k: Seq<char>, v: Seq<char>)
    ensures
        ({
            let after = core_after(core, section, k, v);
            let name = ini::lowered(section);
            &&& after.display == (if name == "display"@ {
                display_after(core.display, k, v)
            } else {
                core.display
            })
            &&& after.window == (if name == "window"@ {
                window_after(core.window, k, v)
            } else {
                core.window
            })
            &&& after.framerate == (if name == "framerate"@ {
                framerate_after(core.framerate, k, v)
            } else {
                core.framerate
            })
            &&& after.input == (if name == "input"@ {
                input_after(core.input, k, v)
            } else {
                core.input
            })
            &&& after.process == (if name == "process"@ {
                process_after(core.process, k, v)
            } else {
                core.process
            })
            &&& after.log == (if name == "log"@ {
                log_after(core.log, k, v)
            } else {
                core.log
            })
        }),
{
    reveal_strlit("display");
    assert("display"@.len() == 7);
    reveal_strlit("window");
    assert("window"@.len() == 6);
    reveal_strlit("framerate");
    assert("framerate"@.len() == 9);
    reveal_strlit("input");
    assert("input"@.len() == 5);
    reveal_strlit("process");
    assert("process"@.len() == 7);
    reveal_strlit("log");
    assert("log"@.len() == 3);
    assert("display"@[0] != "process"@[0]);
}

/// Settings take effect one after the other, onto the defaults.
pub proof fn lemma_settings_in_turn(
    settings: Seq<(Seq<char>, Seq<char>, Seq<char>)>,
    section: Seq<char>,
    k: Seq<char>,
    v: Seq<char>,
)
    ensures
        core_of(settings.push((section, k, v))) == core_after(core_of(settings), section, k, v),
        core_of(seq![]) == CoreModel::defaults(),
{
    assert(settings.push((section, k, v)).drop_last() =~= settings);
}

/// The configuration of the games with a resolution: that key of the display section sets
/// it, where it can be read, and every other setting goes to the common part.
pub proof fn lemma_resolution_settings(
    settings: Seq<(Seq<char>, Seq<char>, Seq<char>)>,
    section: Seq<char>,
    k: Seq<char>,
    v: Seq<char>,
)
    ensures
        ({
            let (before, core) = resolution_of(settings);
            let (after, core_then) = resolution_of(settings.push((section, k, v)));
            let ours = ini::lowered(section) == "display"@ && ini::lowered(k) == "resolution"@;
            &&& after == (if ours && resolution_value(v) is Some {
                resolution_value(v)->0
            } else {
                before
            })
            &&& core_then == (if ours {
                core
            } else {
                core_after(core, section, k, v)
            })
        }),
        resolution_of(seq![]).0 == Resolution::R1280x960,
        resolution_of(seq![]).1 == CoreModel::defaults(),
{
    assert(settings.push((section, k, v)).drop_last() =~= settings);
}

/// Where a borderless mode exists, the mode is the game's too, and starts out windowed.
pub proof fn lemma_resolution_ext_settings(
    settings: Seq<(Seq<char>, Seq<char>, Seq<char>)>,
    section: Seq<char>,
    k: Seq<char>,
    v: Seq<char>,
)
    ensures
        ({
            let (before, core) = resolution_ext_of(settings);
            let (after, core_then) = resolution_ext_of(settings.push((section, k, v)));
            let display = ini::lowered(section) == "display"@;
            let sets_mode = display && ini::lowered(k) == "mode"@;
            let sets_size = display && ini::lowered(k) == "resolution"@;
            &&& after.display_mode == (if sets_mode && display_mode_ext_value(v) is Some {
                display_mode_ext_value(v)->0
            } else {
                before.display_mode
            })
            &&& after.resolution == (if sets_size && resolution_value(v) is Some {
                resolution_value(v)->0
            } else {
                before.resolution
            })
            &&& core_then == (if sets_mode || sets_size {
                core
            } else {
                core_after(core, section, k, v)
            })
        }),
        resolution_ext_of(seq![]).0.display_mode == DisplayModeExt::Windowed,
        resolution_ext_of(seq![]).0.resolution == Resolution::R1280x960,
        resolution_ext_of(seq![]).1 == CoreModel::defaults(),
{
    assert(settings.push((section, k, v)).drop_last() =~= settings);
    reveal_strlit("mode");
    assert("mode"@.len() == 4);
    reveal_strlit("resolution");
    assert("resolution"@.len() == 10);
}

/// The resolutions are of one shape and grow in equal steps. The dialog lists them in that
/// order for each mode, the windowed ones behind the fullscreen ones, and borderless last.
pub proof fn lemma_resolutions(r: Resolution)
    ensures
        r.size().0 == 640 + 320 * r.number(),
        r.size().0 * 3 == r.size().1 * 4,
        r.number() == 0 <==> r == Resolution::R640x480,
        r.number() == 1 <==> r == Resolution::R960x720,
        r.number() == 2 <==> r == Resolution::R1280x960,
        r.radio(DisplayModeExt::Fullscreen) == r.number(),
        r.radio(DisplayModeExt::Windowed) == r.number() + 3,
        r.radio(DisplayModeExt::Borderless) == 8,
        r.scale(DisplayModeExt::Fullscreen) == r.number(),
        r.scale(DisplayModeExt::Windowed) == r.number(),
        r.scale(DisplayModeExt::Borderless) == 5,
{
}

/// To the device, borderless is fullscreen.
pub proof fn lemma_core_mode(mode: DisplayModeExt)
    ensures
        mode.core_mode() == DisplayMode::Windowed <==> mode == DisplayModeExt::Windowed,
{
}

/// What is taken where nothing is configured.
pub proof fn lemma_default_values()
    ensures
        DEFAULT_GAME_FPS == 60,
        DEFAULT_REPLAY_SKIP_FPS == 240,
        DEFAULT_REPLAY_SLOW_FPS == 30,
        DEFAULT_SESSIONS_TO_KEEP == 10,
{
}

} // verus!
