//! The lines of the session manifest.

use neopatch_core::config::{
    CoreConfig, DisplayModeExt, PriorityClass, Resolution, ResolutionConfig, ResolutionConfigExt,
    WindowFrame,
};
use neopatch_core::manifest::{display_mode_ext_name, write_manifest_common};
use neopatch_core::nonzero::NonZeroU32;
use neopatch_core::rates::RefreshRateMode;

#[test]
fn manifest_lists_every_setting() {
    let mut core = CoreConfig::default();
    core.display.refresh_rate = RefreshRateMode::Fixed(NonZeroU32::new(120).unwrap());
    core.window.width = NonZeroU32::new(1280);
    core.window.x = Some(-8);
    core.window.frame = Some(WindowFrame::Borderless);
    core.process.priority = PriorityClass::High;
    core.process.affinity_mask = NonZeroU32::new(0x1f);
    let mut out = String::from("head\n");
    write_manifest_common(&mut out, &core);
    assert_eq!(
        out,
        "head\n\
         display.mode=Windowed\n\
         display.refresh_rate=Fixed(120)\n\
         window=1280xauto at (-8,auto) frame=Borderless always_on_top=false\n\
         framerate.game_fps=60\n\
         framerate.replay_skip_fps=240\n\
         framerate.replay_slow_fps=30\n\
         input.dpad=true\n\
         process.priority=High\n\
         process.affinity_mask=0x1f\n"
    );
}

#[test]
fn manifest_extras_name_the_resolution() {
    let mut out = String::new();
    ResolutionConfig { resolution: Resolution::R960x720 }.write_manifest_extras(&mut out);
    assert_eq!(out, "display.resolution=960x720\n");

    let mut ext = ResolutionConfigExt {
        display_mode: DisplayModeExt::Fullscreen,
        resolution: Resolution::R1280x960,
    };
    let mut out = String::new();
    ext.write_manifest_extras(&mut out);
    ext.display_mode = DisplayModeExt::Borderless;
    ext.write_manifest_extras(&mut out);
    assert_eq!(
        out,
        "display.resolution=1280x960\ndisplay.resolution=auto (Borderless)\n"
    );
}

#[test]
fn extended_display_modes_have_names() {
    assert_eq!(display_mode_ext_name(DisplayModeExt::Windowed), "Windowed");
    assert_eq!(display_mode_ext_name(DisplayModeExt::Fullscreen), "Fullscreen");
    assert_eq!(display_mode_ext_name(DisplayModeExt::Borderless), "Borderless");
}
