//! The configuration as the head of a session log states it.

use vstd::prelude::*;
use crate::config::{
    CoreConfig, CoreModel, DisplayMode, DisplayModeExt, PriorityClass, RefreshRateMode, Resolution,
    ResolutionConfig, ResolutionConfigExt, WindowFrame,
};
use crate::config;
use crate::ini;
use crate::nonzero::NonZeroU32;
use crate::text;
use crate::text::{push_decimal, push_number, push_signed};

verus! {

pub open spec fn display_mode_label(mode: DisplayMode) -> Seq<char> {
    match mode {
        DisplayMode::Windowed => "Windowed"@,
        DisplayMode::Fullscreen => "Fullscreen"@,
    }
}

pub open spec fn refresh_rate_label(mode: RefreshRateMode) -> Seq<char> {
    match mode {
        RefreshRateMode::Native => "Native"@,
        RefreshRateMode::NativeMultiple => "NativeMultiple"@,
        RefreshRateMode::Fixed(n) => "Fixed("@ + text::decimal(n@ as nat) + ")"@,
    }
}

pub open spec fn frame_label(frame: WindowFrame) -> Seq<char> {
    match frame {
        WindowFrame::Framed => "Framed"@,
        WindowFrame::Frameless => "Frameless"@,
        WindowFrame::Borderless => "Borderless"@,
    }
}

pub open spec fn priority_label(priority: PriorityClass) -> Seq<char> {
    match priority {
        PriorityClass::Unchanged => "Unchanged"@,
        PriorityClass::Idle => "Idle"@,
        PriorityClass::BelowNormal => "BelowNormal"@,
        PriorityClass::Normal => "Normal"@,
        PriorityClass::AboveNormal => "AboveNormal"@,
        PriorityClass::High => "High"@,
    }
}

pub open spec fn bool_label(b: bool) -> Seq<char> {
    if b {
        "true"@
    } else {
        "false"@
    }
}

pub open spec fn resolution_label(resolution: Resolution) -> Seq<char> {
    text::decimal(resolution.size().0 as nat) + "x"@ + text::decimal(resolution.size().1 as nat)
}

/// A number, or `auto` where none is set.
pub open spec fn opt_unsigned_label(n: Option<NonZeroU32>) -> Seq<char> {
    match n {
        Some(n) => text::decimal(n@ as nat),
        None => "auto"@,
    }
}

/// A number, or `auto` where none is set.
pub open spec fn opt_signed_label(n: Option<i32>) -> Seq<char> {
    match n {
        Some(n) => text::signed_decimal(n as int),
        None => "auto"@,
    }
}

pub open spec fn opt_frame_label(frame: Option<WindowFrame>) -> Seq<char> {
    match frame {
        Some(frame) => frame_label(frame),
        None => "auto"@,
    }
}

pub open spec fn mask_label(mask: Option<NonZeroU32>) -> Seq<char> {
    match mask {
        Some(n) => "0x"@ + text::hex(n@ as nat),
        None => "0 (default)"@,
    }
}

/// The name of the mode.
pub fn display_mode_name(mode: DisplayMode) -> (name: &'static str)
    ensures
        name@ == display_mode_label(mode),
{
    match mode {
        DisplayMode::Windowed => "Windowed",
        DisplayMode::Fullscreen => "Fullscreen",
    }
}

/// The name of the mode, with its rate where it fixes one.
pub fn push_refresh_rate(out: &mut String, mode: RefreshRateMode)
    ensures
        final(out)@ == old(out)@ + refresh_rate_label(mode),
{
    match mode {
        RefreshRateMode::Native => {
            out.push_str("Native");
        },
        RefreshRateMode::NativeMultiple => {
            out.push_str("NativeMultiple");
        },
        RefreshRateMode::Fixed(n) => {
            out.push_str("Fixed(");
            push_decimal(out, n.get() as u64);
            out.push_str(")");
            assert(out@ =~= old(out)@ + refresh_rate_label(mode));
        },
    }
}

/// The name of the frame.
pub fn window_frame_name(frame: WindowFrame) -> (name: &'static str)
    ensures
        name@ == frame_label(frame),
{
    match frame {
        WindowFrame::Framed => "Framed",
        WindowFrame::Frameless => "Frameless",
        WindowFrame::Borderless => "Borderless",
    }
}

/// The name of the priority class.
pub fn priority_class_name(priority: PriorityClass) -> (name: &'static str)
    ensures
        name@ == priority_label(priority),
{
    match priority {
        PriorityClass::Unchanged => "Unchanged",
        PriorityClass::Idle => "Idle",
        PriorityClass::BelowNormal => "BelowNormal",
        PriorityClass::Normal => "Normal",
        PriorityClass::AboveNormal => "AboveNormal",
        PriorityClass::High => "High",
    }
}

/// The name of the mode.
pub fn display_mode_ext_name(mode: DisplayModeExt) -> (name: &'static str)
    ensures
        name@ == match mode {
            DisplayModeExt::Windowed => "Windowed"@,
            DisplayModeExt::Fullscreen => "Fullscreen"@,
            DisplayModeExt::Borderless => "Borderless"@,
        },
{
    match mode {
        DisplayModeExt::Windowed => "Windowed",
        DisplayModeExt::Fullscreen => "Fullscreen",
        DisplayModeExt::Borderless => "Borderless",
    }
}

fn push_bool(out: &mut String, b: bool)
    ensures
        final(out)@ == old(out)@ + bool_label(b),
{
    if b {
        out.push_str("true");
    } else {
        out.push_str("false");
    }
}

fn push_resolution(out: &mut String, resolution: Resolution)
    ensures
        final(out)@ == old(out)@ + resolution_label(resolution),
{
    let (w, h) = resolution.dimensions();
    push_decimal(out, w as u64);
    out.push_str("x");
    push_decimal(out, h as u64);
    assert(out@ =~= old(out)@ + resolution_label(resolution));
}

fn push_opt_unsigned(out: &mut String, n: Option<NonZeroU32>)
    ensures
        final(out)@ == old(out)@ + opt_unsigned_label(n),
{
    match n {
        Some(n) => {
            push_decimal(out, n.get() as u64);
        },
        None => {
            out.push_str("auto");
        },
    }
}

fn push_opt_signed(out: &mut String, n: Option<i32>)
    ensures
        final(out)@ == old(out)@ + opt_signed_label(n),
{
    match n {
        Some(n) => {
            push_signed(out, n as i64);
        },
        None => {
            out.push_str("auto");
        },
    }
}

fn push_opt_frame(out: &mut String, frame: Option<WindowFrame>)
    ensures
        final(out)@ == old(out)@ + opt_frame_label(frame),
{
    match frame {
        Some(frame) => {
            out.push_str(window_frame_name(frame));
        },
        None => {
            out.push_str("auto");
        },
    }
}

fn push_mask(out: &mut String, mask: Option<NonZeroU32>)
    ensures
        final(out)@ == old(out)@ + mask_label(mask),
{
    match mask {
        Some(n) => {
            out.push_str("0x");
            push_number(out, n.get() as u64, 16);
            assert(out@ =~= old(out)@ + mask_label(mask));
        },
        None => {
            out.push_str("0 (default)");
        },
    }
}

/// The line about the window.
pub open spec fn window_line(core: CoreModel) -> Seq<char> {
    let w = core.window;
    "window="@ + opt_unsigned_label(w.width) + "x"@ + opt_unsigned_label(w.height) + " at ("@
        + opt_signed_label(w.x) + ","@ + opt_signed_label(w.y) + ") frame="@ + opt_frame_label(
        w.frame,
    ) + " always_on_top="@ + bool_label(w.always_on_top) + "\n"@
}

/// The lines about the display.
pub open spec fn display_lines(core: CoreModel) -> Seq<char> {
    "display.mode="@ + display_mode_label(core.display.mode) + "\n"@ + "display.refresh_rate="@
        + refresh_rate_label(core.display.refresh_rate) + "\n"@
}

/// The lines about frame rates.
pub open spec fn framerate_lines(core: CoreModel) -> Seq<char> {
    "framerate.game_fps="@ + text::decimal(core.framerate.game_fps as nat) + "\n"@
        + "framerate.replay_skip_fps="@ + text::decimal(core.framerate.replay_skip_fps as nat)
        + "\n"@ + "framerate.replay_slow_fps="@ + text::decimal(
        core.framerate.replay_slow_fps as nat,
    ) + "\n"@
}

/// The lines about input and process.
pub open spec fn process_lines(core: CoreModel) -> Seq<char> {
    "input.dpad="@ + bool_label(core.input.dpad) + "\n"@ + "process.priority="@ + priority_label(
        core.process.priority,
    ) + "\n"@ + "process.affinity_mask="@ + mask_label(core.process.affinity_mask) + "\n"@
}

/// The lines about what every game has.
pub open spec fn common_lines(core: CoreModel) -> Seq<char> {
    display_lines(core) + window_line(core) + framerate_lines(core) + process_lines(core)
}

fn push_display_lines(out: &mut String, core: &CoreConfig)
    ensures
        final(out)@ == old(out)@ + display_lines(core@),
{
    out.push_str("display.mode=");
    out.push_str(display_mode_name(core.display.mode));
    out.push_str("\n");
    out.push_str("display.refresh_rate=");
    push_refresh_rate(out, core.display.refresh_rate);
    out.push_str("\n");
    assert(out@ =~= old(out)@ + display_lines(core@));
}

fn push_framerate_lines(out: &mut String, core: &CoreConfig)
    ensures
        final(out)@ == old(out)@ + framerate_lines(core@),
{
    out.push_str("framerate.game_fps=");
    push_decimal(out, core.framerate.game_fps as u64);
    out.push_str("\n");
    out.push_str("framerate.replay_skip_fps=");
    push_decimal(out, core.framerate.replay_skip_fps as u64);
    out.push_str("\n");
    out.push_str("framerate.replay_slow_fps=");
    push_decimal(out, core.framerate.replay_slow_fps as u64);
    out.push_str("\n");
    assert(out@ =~= old(out)@ + framerate_lines(core@));
}

fn push_process_lines(out: &mut String, core: &CoreConfig)
    ensures
        final(out)@ == old(out)@ + process_lines(core@),
{
    out.push_str("input.dpad=");
    push_bool(out, core.input.dpad);
    out.push_str("\n");
    out.push_str("process.priority=");
    out.push_str(priority_class_name(core.process.priority));
    out.push_str("\n");
    out.push_str("process.affinity_mask=");
    push_mask(out, core.process.affinity_mask);
    out.push_str("\n");
    assert(out@ =~= old(out)@ + process_lines(core@));
}

fn push_window_line(out: &mut String, core: &CoreConfig)
    ensures
        final(out)@ == old(out)@ + window_line(core@),
{
    let w = &core.window;
    out.push_str("window=");
    push_opt_unsigned(out, w.width);
    out.push_str("x");
    push_opt_unsigned(out, w.height);
    out.push_str(" at (");
    push_opt_signed(out, w.x);
    out.push_str(",");
    push_opt_signed(out, w.y);
    out.push_str(") frame=");
    push_opt_frame(out, w.frame);
    out.push_str(" always_on_top=");
    push_bool(out, w.always_on_top);
    out.push_str("\n");
    assert(out@ =~= old(out)@ + window_line(core@));
}

/// Appends the game-agnostic manifest lines.
pub fn write_manifest_common(out: &mut String, core: &CoreConfig)
    ensures
        final(out)@ == old(out)@ + common_lines(core@),
{
    push_display_lines(out, core);
    push_window_line(out, core);
    push_framerate_lines(out, core);
    push_process_lines(out, core);
    assert(out@ =~= old(out)@ + common_lines(core@));
}

impl ResolutionConfig {
    /// Appends the game-specific manifest line.
    pub fn write_manifest_extras(&self, out: &mut String)
        ensures
            final(out)@ == old(out)@ + ("display.resolution="@ + resolution_label(self.resolution)
                + "\n"@),
    {
        out.push_str("display.resolution=");
        push_resolution(out, self.resolution);
        out.push_str("\n");
        assert(out@ =~= old(out)@ + ("display.resolution="@ + resolution_label(self.resolution)
            + "\n"@));
    }
}

impl ResolutionConfigExt {
    /// Appends the game-specific manifest line. Borderless ignores the resolution.
    pub fn write_manifest_extras(&self, out: &mut String)
        ensures
            final(out)@ == old(out)@ + if self.display_mode == DisplayModeExt::Borderless {
                "display.resolution=auto (Borderless)\n"@
            } else {
                "display.resolution="@ + resolution_label(self.resolution) + "\n"@
            },
    {
        if self.display_mode == DisplayModeExt::Borderless {
            out.push_str("display.resolution=auto (Borderless)\n");
        } else {
            out.push_str("display.resolution=");
            push_resolution(out, self.resolution);
            out.push_str("\n");
            assert(out@ =~= old(out)@ + ("display.resolution="@ + resolution_label(
                self.resolution,
            ) + "\n"@));
        }
    }
}

/// A priority class is read from the name that the manifest prints for it, in any case, and
/// from nothing else. The names are told apart by their first letters.
pub proof fn lemma_priority_names(c: PriorityClass, s: Seq<char>)
    ensures
        config::priority_value(priority_label(c)) == Some(c),
        config::priority_value(s) == Some(c) ==> ini::lowered(s) == ini::lowered(priority_label(c)),
        priority_label(c)[0] == (match c {
            PriorityClass::Unchanged => 'U',
            PriorityClass::Idle => 'I',
            PriorityClass::BelowNormal => 'B',
            PriorityClass::Normal => 'N',
            PriorityClass::AboveNormal => 'A',
            PriorityClass::High => 'H',
        }),
{
    reveal_strlit("Unchanged");
    assert("Unchanged"@.len() == 9);
    reveal_strlit("unchanged");
    assert("unchanged"@.len() == 9);
    reveal_strlit("Idle");
    assert("Idle"@.len() == 4);
    reveal_strlit("idle");
    assert("idle"@.len() == 4);
    reveal_strlit("BelowNormal");
    assert("BelowNormal"@.len() == 11);
    reveal_strlit("belownormal");
    assert("belownormal"@.len() == 11);
    reveal_strlit("Normal");
    assert("Normal"@.len() == 6);
    reveal_strlit("normal");
    assert("normal"@.len() == 6);
    reveal_strlit("AboveNormal");
    assert("AboveNormal"@.len() == 11);
    reveal_strlit("abovenormal");
    assert("abovenormal"@.len() == 11);
    reveal_strlit("High");
    assert("High"@.len() == 4);
    reveal_strlit("high");
    assert("high"@.len() == 4);
    assert(ini::lowered("Unchanged"@) =~= "unchanged"@);
    assert(ini::lowered("Idle"@) =~= "idle"@);
    assert(ini::lowered("BelowNormal"@) =~= "belownormal"@);
    assert(ini::lowered("Normal"@) =~= "normal"@);
    assert(ini::lowered("AboveNormal"@) =~= "abovenormal"@);
    assert(ini::lowered("High"@) =~= "high"@);
    assert("abovenormal"@[0] != "belownormal"@[0]);
    assert("high"@[0] != "idle"@[0]);
}

/// A display mode is read from the name that the manifest prints for it, in any case, and
/// from nothing else.
pub proof fn lemma_display_mode_names(c: DisplayMode, s: Seq<char>)
    ensures
        config::display_mode_value(display_mode_label(c)) == Some(c),
        config::display_mode_value(s) == Some(c) ==> ini::lowered(s) == ini::lowered(display_mode_label(c)),
        display_mode_label(c)[0] == (match c {
            DisplayMode::Windowed => 'W',
            DisplayMode::Fullscreen => 'F',
        }),
{
    reveal_strlit("Windowed");
    assert("Windowed"@.len() == 8);
    reveal_strlit("windowed");
    assert("windowed"@.len() == 8);
    reveal_strlit("Fullscreen");
    assert("Fullscreen"@.len() == 10);
    reveal_strlit("fullscreen");
    assert("fullscreen"@.len() == 10);
    assert(ini::lowered("Windowed"@) =~= "windowed"@);
    assert(ini::lowered("Fullscreen"@) =~= "fullscreen"@);
}

/// A window frame is read from the name that the manifest prints for it, in any case, and
/// from nothing else.
pub proof fn lemma_frame_names(c: WindowFrame, s: Seq<char>)
    ensures
        config::window_frame_value(frame_label(c)) == Some(c),
        config::window_frame_value(s) == Some(c) ==> ini::lowered(s) == ini::lowered(frame_label(c)),
        c == WindowFrame::Borderless <==> frame_label(c)[0] == 'B',
        c == WindowFrame::Framed <==> frame_label(c).len() == 6,
{
    reveal_strlit("Framed");
    assert("Framed"@.len() == 6);
    reveal_strlit("framed");
    assert("framed"@.len() == 6);
    reveal_strlit("Frameless");
    assert("Frameless"@.len() == 9);
    reveal_strlit("frameless");
    assert("frameless"@.len() == 9);
    reveal_strlit("Borderless");
    assert("Borderless"@.len() == 10);
    reveal_strlit("borderless");
    assert("borderless"@.len() == 10);
    assert(ini::lowered("Framed"@) =~= "framed"@);
    assert(ini::lowered("Frameless"@) =~= "frameless"@);
    assert(ini::lowered("Borderless"@) =~= "borderless"@);
}

/// A display mode of the games with three of them is read from its name, in any case, and
/// from nothing else.
pub proof fn lemma_display_mode_ext_names(c: DisplayModeExt, s: Seq<char>)
    ensures
        config::display_mode_ext_value(display_mode_ext_label(c)) == Some(c),
        config::display_mode_ext_value(s) == Some(c) ==> ini::lowered(s) == ini::lowered(display_mode_ext_label(c)),
        display_mode_ext_label(c)[0] == (match c {
            DisplayModeExt::Windowed => 'W',
            DisplayModeExt::Fullscreen => 'F',
            DisplayModeExt::Borderless => 'B',
        }),
{
    reveal_strlit("Windowed");
    assert("Windowed"@.len() == 8);
    reveal_strlit("windowed");
    assert("windowed"@.len() == 8);
    reveal_strlit("Fullscreen");
    assert("Fullscreen"@.len() == 10);
    reveal_strlit("fullscreen");
    assert("fullscreen"@.len() == 10);
    reveal_strlit("Borderless");
    assert("Borderless"@.len() == 10);
    reveal_strlit("borderless");
    assert("borderless"@.len() == 10);
    assert(ini::lowered("Windowed"@) =~= "windowed"@);
    assert(ini::lowered("Fullscreen"@) =~= "fullscreen"@);
    assert(ini::lowered("Borderless"@) =~= "borderless"@);
    assert("borderless"@[0] != "fullscreen"@[0]);
}

/// The name of a mode of the games with three of them.
pub open spec fn display_mode_ext_label(mode: DisplayModeExt) -> Seq<char> {
    match mode {
        DisplayModeExt::Windowed => "Windowed"@,
        DisplayModeExt::Fullscreen => "Fullscreen"@,
        DisplayModeExt::Borderless => "Borderless"@,
    }
}

/// A refresh rate mode is read from its name, in any case, and a fixed rate from its
/// number; zero is no rate.
pub proof fn lemma_refresh_rate_names(n: NonZeroU32, s: Seq<char>)
    requires
        n@ != 0,
    ensures
        config::refresh_rate_value(refresh_rate_label(RefreshRateMode::Native)) == Some(
            RefreshRateMode::Native,
        ),
        config::refresh_rate_value(refresh_rate_label(RefreshRateMode::NativeMultiple)) == Some(
            RefreshRateMode::NativeMultiple,
        ),
        config::refresh_rate_value(text::decimal(n@ as nat)) == Some(RefreshRateMode::Fixed(n)),
        config::refresh_rate_value(text::decimal(0)) is None,
        match config::refresh_rate_value(s) {
            Some(RefreshRateMode::Native) => ini::lowered(s) == ini::lowered("Native"@),
            Some(RefreshRateMode::NativeMultiple) => ini::lowered(s) == ini::lowered(
                "NativeMultiple"@,
            ),
            Some(RefreshRateMode::Fixed(m)) => config::nonzero_value(s) == Some(m),
            None => config::nonzero_value(s) is None,
        },
        refresh_rate_label(RefreshRateMode::Native).len() == 6,
        refresh_rate_label(RefreshRateMode::NativeMultiple).len() == 14,
{
    reveal_strlit("Native");
    assert("Native"@.len() == 6);
    reveal_strlit("native");
    assert("native"@.len() == 6);
    reveal_strlit("NativeMultiple");
    assert("NativeMultiple"@.len() == 14);
    reveal_strlit("nativemultiple");
    assert("nativemultiple"@.len() == 14);
    assert(ini::lowered("Native"@) =~= "native"@);
    assert(ini::lowered("NativeMultiple"@) =~= "nativemultiple"@);
    let d = text::decimal(n@ as nat);
    ini::lemma_unsigned_value(n@ as nat, d);
    ini::lemma_unsigned_value(0, text::decimal(0));
    ini::lemma_number_reads_back(n@ as nat, 10);
    ini::lemma_number_reads_back(0, 10);
    ini::lemma_digit_value(d[0], 0, 10);
    assert(ini::digit_value(d[0], 10) is Some);
    assert(ini::lowered(d)[0] == ini::lower_char(d[0]));
    assert("native"@[0] == 'n' && "nativemultiple"@[0] == 'n');
    let z = text::decimal(0);
    assert(ini::digit_value(z[0], 10) is Some);
    assert(ini::lowered(z)[0] == ini::lower_char(z[0]));
    crate::nonzero::lemma_of_u32(n@, n);
}

/// A resolution is read from the name that the manifest prints for it, in any case, and
/// from nothing else.
pub proof fn lemma_resolution_names(r: Resolution, s: Seq<char>)
    ensures
        config::resolution_value(resolution_label(r)) == Some(r),
        config::resolution_value(s) == Some(r) ==> ini::lowered(s) == ini::lowered(
            resolution_label(r),
        ),
{
    reveal_strlit("640x480");
    assert("640x480"@.len() == 7);
    reveal_strlit("960x720");
    assert("960x720"@.len() == 7);
    reveal_strlit("1280x960");
    assert("1280x960"@.len() == 8);
    reveal_strlit("x");
    assert("x"@.len() == 1);
    reveal_with_fuel(text::number, 5);
    assert(text::decimal(640) =~= seq!['6', '4', '0']);
    assert(text::decimal(480) =~= seq!['4', '8', '0']);
    assert(text::decimal(960) =~= seq!['9', '6', '0']);
    assert(text::decimal(720) =~= seq!['7', '2', '0']);
    assert(text::decimal(1280) =~= seq!['1', '2', '8', '0']);
    assert("640x480"@[0] != "960x720"@[0]);
    match r {
        Resolution::R640x480 => {
            assert(resolution_label(r) =~= "640x480"@);
            assert(ini::lowered("640x480"@) =~= "640x480"@);
        },
        Resolution::R960x720 => {
            assert(resolution_label(r) =~= "960x720"@);
            assert(ini::lowered("960x720"@) =~= "960x720"@);
        },
        Resolution::R1280x960 => {
            assert(resolution_label(r) =~= "1280x960"@);
            assert(ini::lowered("1280x960"@) =~= "1280x960"@);
        },
    }
}

/// What the manifest prints for a setting is read as that setting; what is not set has
/// another name.
pub proof fn lemma_labels_read_back(n: NonZeroU32, i: i32, f: WindowFrame, b: bool)
    requires
        n@ != 0,
    ensures
        config::nonzero_value(opt_unsigned_label(Some(n))) == Some(n),
        config::nonzero_value(opt_unsigned_label(None)) is None,
        ini::signed_value(opt_signed_label(Some(i))) == Some(i),
        ini::signed_value(opt_signed_label(None)) is None,
        config::window_frame_value(opt_frame_label(Some(f))) == Some(f),
        config::window_frame_value(opt_frame_label(None)) is None,
        ini::bitmask_value(mask_label(Some(n))) == Some(n@),
        ini::bool_value(bool_label(b)) == Some(b),
{
    reveal_strlit("auto");
    assert("auto"@.len() == 4);
    assert("auto"@[0] == 'a');
    reveal_strlit("0x");
    assert("0x"@ =~= seq!['0', 'x']);
    ini::lemma_unsigned_value(n@ as nat, "auto"@);
    crate::nonzero::lemma_of_u32(n@, n);
    ini::lemma_signed_value(i);
    ini::lemma_digit_value("auto"@[0], 0, 10);
    ini::lemma_words_are_no_numbers("auto"@);
    lemma_frame_names(f, "auto"@);
    reveal_strlit("framed");
    assert("framed"@.len() == 6);
    reveal_strlit("frameless");
    assert("frameless"@.len() == 9);
    reveal_strlit("borderless");
    assert("borderless"@.len() == 10);
    ini::lemma_bitmask_value(n@);
    ini::lemma_bool_value(bool_label(b));
    reveal_strlit("true");
    reveal_strlit("false");
    assert(ini::lowered("true"@) =~= seq!['t', 'r', 'u', 'e']);
    assert(ini::lowered("false"@) =~= seq!['f', 'a', 'l', 's', 'e']);
}

/// A line of a manifest: a key and its value, with an equals sign between them.
pub open spec fn line(key: Seq<char>, value: Seq<char>) -> Seq<char> {
    key.push('=') + value.push('\n')
}

/// The lines about the display: the mode and the refresh rate.
pub proof fn lemma_display_lines(core: CoreModel)
    ensures
        display_lines(core) == line("display.mode"@, display_mode_label(core.display.mode)) + line("display.refresh_rate"@, refresh_rate_label(core.display.refresh_rate)),
{
    reveal_strlit("display.mode");
    reveal_strlit("display.mode=");
    reveal_strlit("display.refresh_rate");
    reveal_strlit("display.refresh_rate=");
    reveal_strlit("\n");
    assert(display_lines(core) =~= line("display.mode"@, display_mode_label(core.display.mode)) + line("display.refresh_rate"@, refresh_rate_label(core.display.refresh_rate)));
}

/// The lines about frame rates: those of play, of skipping and of slow motion.
pub proof fn lemma_framerate_lines(core: CoreModel)
    ensures
        framerate_lines(core) == line("framerate.game_fps"@, text::decimal(core.framerate.game_fps as nat)) + line("framerate.replay_skip_fps"@, text::decimal(core.framerate.replay_skip_fps as nat)) + line("framerate.replay_slow_fps"@, text::decimal(core.framerate.replay_slow_fps as nat)),
{
    reveal_strlit("framerate.game_fps");
    reveal_strlit("framerate.game_fps=");
    reveal_strlit("framerate.replay_skip_fps");
    reveal_strlit("framerate.replay_skip_fps=");
    reveal_strlit("framerate.replay_slow_fps");
    reveal_strlit("framerate.replay_slow_fps=");
    reveal_strlit("\n");
    assert(framerate_lines(core) =~= line("framerate.game_fps"@, text::decimal(core.framerate.game_fps as nat)) + line("framerate.replay_skip_fps"@, text::decimal(core.framerate.replay_skip_fps as nat)) + line("framerate.replay_slow_fps"@, text::decimal(core.framerate.replay_slow_fps as nat)));
}

/// The lines about input and process: the D-pad, the priority and the affinity.
pub proof fn lemma_process_lines(core: CoreModel)
    ensures
        process_lines(core) == line("input.dpad"@, bool_label(core.input.dpad)) + line("process.priority"@, priority_label(core.process.priority)) + line("process.affinity_mask"@, mask_label(core.process.affinity_mask)),
{
    reveal_strlit("input.dpad");
    reveal_strlit("input.dpad=");
    reveal_strlit("process.priority");
    reveal_strlit("process.priority=");
    reveal_strlit("process.affinity_mask");
    reveal_strlit("process.affinity_mask=");
    reveal_strlit("\n");
    assert(process_lines(core) =~= line("input.dpad"@, bool_label(core.input.dpad)) + line("process.priority"@, priority_label(core.process.priority)) + line("process.affinity_mask"@, mask_label(core.process.affinity_mask)));
}

/// The line about the window: its size, its place, its frame and whether it stays on top.
pub proof fn lemma_window_line(core: CoreModel)
    ensures
        ({
            let w = core.window;
            window_line(core) == line(
                "window"@,
                opt_unsigned_label(w.width).push('x') + opt_unsigned_label(w.height) + " at ("@
                    + opt_signed_label(w.x).push(',') + opt_signed_label(w.y) + ") frame="@
                    + opt_frame_label(w.frame) + " always_on_top="@ + bool_label(w.always_on_top),
            )
        }),
{
    let w = core.window;
    reveal_strlit("window");
    reveal_strlit("window=");
    reveal_strlit("x");
    reveal_strlit(",");
    reveal_strlit("\n");
    assert(window_line(core) =~= line(
        "window"@,
        opt_unsigned_label(w.width).push('x') + opt_unsigned_label(w.height) + " at ("@
            + opt_signed_label(w.x).push(',') + opt_signed_label(w.y) + ") frame="@
            + opt_frame_label(w.frame) + " always_on_top="@ + bool_label(w.always_on_top),
    ));
}

/// The lines about what every game has come in this order.
pub proof fn lemma_common_lines(core: CoreModel)
    ensures
        ({
            let (d, w, f, p) = (
                display_lines(core),
                window_line(core),
                framerate_lines(core),
                process_lines(core),
            );
            let all = common_lines(core);
            &&& all.len() == d.len() + w.len() + f.len() + p.len()
            &&& all.take(d.len() as int) == d
            &&& all.skip(d.len() as int).take(w.len() as int) == w
            &&& all.skip((d.len() + w.len()) as int).take(f.len() as int) == f
            &&& all.skip((d.len() + w.len() + f.len()) as int) == p
        }),
{
    let (d, w, f, p) = (
        display_lines(core),
        window_line(core),
        framerate_lines(core),
        process_lines(core),
    );
    let all = common_lines(core);
    assert(all.take(d.len() as int) =~= d);
    assert(all.skip(d.len() as int).take(w.len() as int) =~= w);
    assert(all.skip((d.len() + w.len()) as int).take(f.len() as int) =~= f);
    assert(all.skip((d.len() + w.len() + f.len()) as int) =~= p);
}

/// A mask that is not set is the default one.
pub proof fn lemma_mask_names(n: NonZeroU32)
    ensures
        mask_label(None) == "0 (default)"@,
        mask_label(Some(n)).len() == 2 + text::hex(n@ as nat).len(),
        mask_label(Some(n)).skip(2) == text::hex(n@ as nat),
{
    reveal_strlit("0x");
    assert("0x"@.len() == 2);
    assert(mask_label(Some(n)).skip(2) =~= text::hex(n@ as nat));
}

/// What is left to the game or the system is printed as such.
pub proof fn lemma_unset_names()
    ensures
        opt_unsigned_label(None) == "auto"@,
        opt_signed_label(None) == "auto"@,
        opt_frame_label(None) == "auto"@,
{
}

} // verus!
