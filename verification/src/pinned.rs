//! Settings that are overridden for a whole session, and restored when the game writes
//! its configuration back.

use crate::config::DisplayMode;
use crate::d3d::Format;
use vstd::prelude::*;

verus! {

/// The option that forces 16-bit colour.
pub const FORCE_16BIT_COLOR_MASK: u32 = 0x4;

/// The colour mode that stands for auto-detection.
pub const COLOR_MODE_AUTO: u8 = 0xff;

/// The bytes of the game's configuration that are overridden.
#[derive(Clone, Copy, Debug, PartialEq, Eq, Structural)]
pub struct CfgBytes {
    /// 0 for fullscreen, 1 for windowed.
    pub windowed: u8,
    pub opts: u32,
    pub frameskip: u8,
    /// 0 for 32-bit, 1 for 16-bit, 0xff for auto-detection.
    pub color_mode: u8,
}

/// What the user had, and what was forced. Frameskip is always forced to 0, and the
/// option for 16-bit colour is always forced clear.
#[derive(Clone, Copy, Debug, PartialEq, Eq, Structural)]
pub struct PinnedCfg {
    pub user_windowed: u8,
    pub forced_windowed: u8,
    pub user_force_16bit: bool,
    pub user_frameskip: u8,
}

/// The windowed byte for a display mode; without a configuration it is windowed.
pub open spec fn windowed_byte(mode: Option<DisplayMode>) -> u8 {
    match mode {
        Some(DisplayMode::Fullscreen) => 0,
        _ => 1,
    }
}

/// What is pinned for a configuration.
pub open spec fn pinned_for(cfg: CfgBytes, mode: Option<DisplayMode>) -> PinnedCfg {
    PinnedCfg {
        user_windowed: cfg.windowed,
        forced_windowed: windowed_byte(mode),
        user_force_16bit: cfg.opts & FORCE_16BIT_COLOR_MASK != 0,
        user_frameskip: cfg.frameskip,
    }
}

/// A configuration with the overrides applied.
pub open spec fn overridden(cfg: CfgBytes, mode: Option<DisplayMode>) -> CfgBytes {
    CfgBytes {
        windowed: windowed_byte(mode),
        opts: if cfg.opts & FORCE_16BIT_COLOR_MASK != 0 {
            cfg.opts & !FORCE_16BIT_COLOR_MASK
        } else {
            cfg.opts
        },
        frameskip: 0,
        color_mode: resolved_color(cfg.color_mode),
    }
}

/// The colour mode with auto-detection resolved to 32-bit.
pub open spec fn resolved_color(color_mode: u8) -> u8 {
    if color_mode == COLOR_MODE_AUTO {
        0
    } else {
        color_mode
    }
}

/// Applies the overrides, once the configuration is loaded and before a window or device
/// exists. What is pinned first stays pinned.
pub fn apply_display_override(
    cfg: &mut CfgBytes,
    pinned: &mut Option<PinnedCfg>,
    mode: Option<DisplayMode>,
)
    ensures
        *final(cfg) == overridden(*old(cfg), mode),
        *final(pinned) == (match *old(pinned) {
            Some(first) => Some(first),
            None => Some(pinned_for(*old(cfg), mode)),
        }),
{
    let user_windowed: u8 = cfg.windowed;
    let opts: u32 = cfg.opts;
    let user_force_16bit = opts & FORCE_16BIT_COLOR_MASK != 0;
    let user_frameskip: u8 = cfg.frameskip;
    let forced_windowed: u8 = match mode {
        Some(DisplayMode::Fullscreen) => 0,
        Some(DisplayMode::Windowed) | None => 1,
    };
    if pinned.is_none() {
        *pinned = Some(
            PinnedCfg { user_windowed, forced_windowed, user_force_16bit, user_frameskip },
        );
    }
    if user_windowed != forced_windowed {
        cfg.windowed = forced_windowed;
    }
    if user_force_16bit {
        cfg.opts = opts & !FORCE_16BIT_COLOR_MASK;
    }
    if user_frameskip != 0 {
        cfg.frameskip = 0;
    }
    resolve_color_mode_sentinel(cfg);
}

/// Resolves an auto-detected colour mode to 32-bit.
pub fn resolve_color_mode_sentinel(cfg: &mut CfgBytes)
    ensures
        *final(cfg) == (CfgBytes { color_mode: resolved_color(old(cfg).color_mode), ..*old(cfg) }),
{
    if cfg.color_mode == COLOR_MODE_AUTO {
        cfg.color_mode = 0;
    }
}

/// Enters the game's rendering setup: the pinned display mode is asserted again, and the
/// colour mode is 32-bit for the time being. Returns the player's colour mode, which is
/// handed back afterwards; `None` when nothing is pinned, and nothing was changed.
pub fn enter_rendering_setup(cfg: &mut CfgBytes, pinned: Option<PinnedCfg>) -> (user_choice: Option<
    u8,
>)
    ensures
        match pinned {
            Some(p) => {
                &&& user_choice == Some(old(cfg).color_mode)
                &&& *final(cfg) == (CfgBytes {
                    windowed: p.forced_windowed,
                    color_mode: 0,
                    ..*old(cfg)
                })
            },
            None => user_choice is None && *final(cfg) == *old(cfg),
        },
{
    match pinned {
        None => None,
        Some(p) => {
            if cfg.windowed != p.forced_windowed {
                cfg.windowed = p.forced_windowed;
            }
            let choice: u8 = cfg.color_mode;
            if choice != 0 {
                cfg.color_mode = 0;
            }
            Some(choice)
        },
    }
}

/// Leaves the game's rendering setup: the player's colour mode is handed back.
pub fn leave_rendering_setup(cfg: &mut CfgBytes, user_choice: Option<u8>)
    ensures
        *final(cfg) == (match user_choice {
            Some(choice) => CfgBytes { color_mode: choice, ..*old(cfg) },
            None => *old(cfg),
        }),
{
    match user_choice {
        Some(choice) => {
            cfg.color_mode = choice;
        },
        None => {},
    }
}

/// A configuration as it is written back: what still holds the forced value gets the
/// user's, and what the game changed since is kept.
pub open spec fn restored(cfg: CfgBytes, p: PinnedCfg) -> CfgBytes {
    CfgBytes {
        windowed: if cfg.windowed == p.forced_windowed {
            p.user_windowed
        } else {
            cfg.windowed
        },
        opts: if p.user_force_16bit && cfg.opts & FORCE_16BIT_COLOR_MASK == 0 {
            cfg.opts | FORCE_16BIT_COLOR_MASK
        } else {
            cfg.opts
        },
        frameskip: if cfg.frameskip == 0 {
            p.user_frameskip
        } else {
            cfg.frameskip
        },
        color_mode: cfg.color_mode,
    }
}

/// Restores the user's settings before the configuration is written back.
pub fn cfg_write_hook(cfg: &mut CfgBytes, pinned: Option<PinnedCfg>)
    ensures
        *final(cfg) == (match pinned {
            Some(p) => restored(*old(cfg), p),
            None => *old(cfg),
        }),
{
    match pinned {
        None => {},
        Some(p) => {
            if cfg.windowed == p.forced_windowed {
                cfg.windowed = p.user_windowed;
            }
            let opts: u32 = cfg.opts;
            if p.user_force_16bit && opts & FORCE_16BIT_COLOR_MASK == 0 {
                cfg.opts = opts | FORCE_16BIT_COLOR_MASK;
            }
            if cfg.frameskip == 0 {
                cfg.frameskip = p.user_frameskip;
            }
        },
    }
}

/// Writing back undoes the overrides: a session in which the game changed nothing leaves
/// the user's settings as they were, but for an auto-detected colour mode, which stays
/// resolved.
pub proof fn lemma_restore_undoes_override(cfg: CfgBytes, mode: Option<DisplayMode>)
    ensures
        restored(overridden(cfg, mode), pinned_for(cfg, mode)) == (CfgBytes {
            color_mode: resolved_color(cfg.color_mode),
            ..cfg
        }),
{
    let opts = cfg.opts;
    assert(opts & FORCE_16BIT_COLOR_MASK != 0 ==> ((opts & !FORCE_16BIT_COLOR_MASK)
        & FORCE_16BIT_COLOR_MASK == 0 && (opts & !FORCE_16BIT_COLOR_MASK) | FORCE_16BIT_COLOR_MASK
        == opts)) by (bit_vector);
}

/// What the game changed during the session is kept, and no option but the forced one is
/// ever touched.
pub proof fn lemma_restore_keeps_changes(cfg: CfgBytes, p: PinnedCfg)
    ensures
        cfg.windowed != p.forced_windowed ==> restored(cfg, p).windowed == cfg.windowed,
        cfg.frameskip != 0 ==> restored(cfg, p).frameskip == cfg.frameskip,
        restored(cfg, p).opts & !FORCE_16BIT_COLOR_MASK == cfg.opts & !FORCE_16BIT_COLOR_MASK,
        restored(cfg, p).color_mode == cfg.color_mode,
{
    let opts = cfg.opts;
    assert((opts | FORCE_16BIT_COLOR_MASK) & !FORCE_16BIT_COLOR_MASK == opts
        & !FORCE_16BIT_COLOR_MASK) by (bit_vector);
}

/// Points the game's cached back buffer format at the one the device got. Returns whether
/// it had to be changed.
pub fn reconcile_cached_back_buffer_format(cached: &mut Format, actual: Option<Format>) -> (changed:
    bool)
    ensures
        *final(cached) == (match actual {
            Some(format) => format,
            None => *old(cached),
        }),
        changed == (*final(cached) != *old(cached)),
{
    match actual {
        None => false,
        Some(format) => {
            if *cached != format {
                *cached = format;
                true
            } else {
                false
            }
        },
    }
}

/// During a session the display mode is the configured one, and windowed without one, frames
/// are not skipped, and 16-bit colour is not forced; nothing else about the options changes,
/// and a colour mode changes only where it would be detected.
pub proof fn lemma_overridden(cfg: CfgBytes, mode: Option<DisplayMode>)
    ensures
        overridden(cfg, mode).windowed == 0 <==> mode == Some(DisplayMode::Fullscreen),
        overridden(cfg, mode).windowed == 1 <==> mode != Some(DisplayMode::Fullscreen),
        overridden(cfg, mode).frameskip == 0,
        overridden(cfg, mode).opts & 4 == 0,
        overridden(cfg, mode).opts | 4 == cfg.opts | 4,
        cfg.color_mode == 255 ==> overridden(cfg, mode).color_mode == 0,
        cfg.color_mode != 255 ==> overridden(cfg, mode).color_mode == cfg.color_mode,
{
    let opts = cfg.opts;
    assert((opts & !4u32) & 4 == 0 && (opts & !4u32) | 4 == opts | 4) by (bit_vector);
}

/// What is pinned is what the user had, and the display mode that is forced.
pub proof fn lemma_pinned(cfg: CfgBytes, mode: Option<DisplayMode>)
    ensures
        pinned_for(cfg, mode).user_windowed == cfg.windowed,
        pinned_for(cfg, mode).user_frameskip == cfg.frameskip,
        pinned_for(cfg, mode).user_force_16bit <==> cfg.opts & 4 == 4,
        pinned_for(cfg, mode).forced_windowed == overridden(cfg, mode).windowed,
{
    let opts = cfg.opts;
    assert(opts & 4 != 0 <==> opts & 4 == 4) by (bit_vector);
}

/// What still holds a forced value is written back as the user had it.
pub proof fn lemma_restored(cfg: CfgBytes, p: PinnedCfg)
    ensures
        cfg.windowed == p.forced_windowed ==> restored(cfg, p).windowed == p.user_windowed,
        cfg.frameskip == 0 ==> restored(cfg, p).frameskip == p.user_frameskip,
        p.user_force_16bit ==> restored(cfg, p).opts == cfg.opts | 4,
        !p.user_force_16bit ==> restored(cfg, p).opts == cfg.opts,
        cfg.windowed != p.forced_windowed ==> restored(cfg, p).windowed == cfg.windowed,
        cfg.frameskip != 0 ==> restored(cfg, p).frameskip == cfg.frameskip,
{
    let opts = cfg.opts;
    assert(opts & 4 != 0 ==> opts | 4 == opts) by (bit_vector);
}

/// The option and the colour mode that are overridden.
pub proof fn lemma_pinned_codes()
    ensures
        FORCE_16BIT_COLOR_MASK == 0x4,
        COLOR_MODE_AUTO == 0xff,
{
}

} // verus!
