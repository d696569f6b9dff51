//! Window policy: how the game's render window is created, restyled and shown.

use crate::bytes;
use crate::bytes::{cast_signed, cast_unsigned};
use crate::config::{
    DisplayMode, DisplayModeExt, ResolutionConfig, ResolutionConfigExt, WindowCfg, WindowFrame,
};
use crate::d3d8::Rect;
use crate::text;
use crate::text::push_utf16;
use crate::untrusted::matches_nul_terminated;
use vstd::prelude::*;

verus! {

pub const WS_OVERLAPPED: u32 = 0;

pub const WS_POPUP: u32 = 0x8000_0000;

pub const WS_CHILD: u32 = 0x4000_0000;

pub const WS_VISIBLE: u32 = 0x1000_0000;

pub const WS_CLIPSIBLINGS: u32 = 0x0400_0000;

pub const WS_CAPTION: u32 = 0x00c0_0000;

pub const WS_SYSMENU: u32 = 0x0008_0000;

pub const WS_THICKFRAME: u32 = 0x0004_0000;

pub const WS_MINIMIZEBOX: u32 = 0x0002_0000;

pub const WS_MAXIMIZEBOX: u32 = 0x0001_0000;

pub const WS_OVERLAPPEDWINDOW: u32 = 0x00cf_0000;

pub const WS_EX_TOPMOST: u32 = 0x8;

pub const CW_USEDEFAULT: i32 = -0x8000_0000;

pub const SWP_NOSIZE: u32 = 0x1;

pub const SWP_NOMOVE: u32 = 0x2;

pub const SWP_NOZORDER: u32 = 0x4;

pub const SWP_NOACTIVATE: u32 = 0x10;

pub const SWP_FRAMECHANGED: u32 = 0x20;

pub const SWP_SHOWWINDOW: u32 = 0x40;

pub const SWP_HIDEWINDOW: u32 = 0x80;

/// The longest window title that is read, in units.
pub const TITLE_READ_LEN: usize = 512;

/// What to do with the game's render window.
#[derive(Clone, Copy, Debug)]
pub enum WindowPolicy {
    /// Rewrites geometry, style, title and Z-order for non-popup creations, and only title
    /// and Z-order for popup ones.
    Restyle {
        /// The target size.
        framebuffer: (u32, u32),
        /// Determines the frame used when the configuration leaves it unset.
        display_mode: DisplayMode,
    },
    /// Rewrites only title and Z-order.
    DeferToGame,
}

impl ResolutionConfig {
    /// Games with the core two-state mode are always restyled to the configured
    /// resolution.
    pub fn window_policy(&self, display_mode: DisplayMode) -> (policy: WindowPolicy)
        ensures
            policy == (WindowPolicy::Restyle { framebuffer: self.resolution.size(), display_mode }),
    {
        WindowPolicy::Restyle { framebuffer: self.resolution.dimensions(), display_mode }
    }
}

impl ResolutionConfigExt {
    /// Borderless games manage their own window, so the core defers; otherwise they are
    /// restyled to the configured resolution.
    pub fn window_policy(&self) -> (policy: WindowPolicy)
        ensures
            policy == if self.display_mode == DisplayModeExt::Borderless {
                WindowPolicy::DeferToGame
            } else {
                WindowPolicy::Restyle {
                    framebuffer: self.resolution.size(),
                    display_mode: self.display_mode.core_mode(),
                }
            },
    {
        match self.display_mode {
            DisplayModeExt::Borderless => WindowPolicy::DeferToGame,
            DisplayModeExt::Windowed | DisplayModeExt::Fullscreen => WindowPolicy::Restyle {
                framebuffer: self.resolution.dimensions(),
                display_mode: self.display_mode.to_core(),
            },
        }
    }
}

/// Picks the import that is hooked.
#[derive(Clone, Copy, Debug, PartialEq, Eq, Structural)]
pub enum WindowApi {
    Ansi,
    Wide,
}

impl WindowApi {
    /// The name of the import that is hooked.
    pub fn import_name(self) -> (name: &'static str)
        ensures
            name@ == match self {
                WindowApi::Ansi => "CreateWindowExA"@,
                WindowApi::Wide => "CreateWindowExW"@,
            },
    {
        match self {
            WindowApi::Ansi => "CreateWindowExA",
            WindowApi::Wide => "CreateWindowExW",
        }
    }
}

/// A [`WindowCfg`] with everything unset filled in.
#[derive(Clone, Copy, Debug)]
pub struct ResolvedWindowCfg {
    /// The configured outer position, or `None` to leave placement to the system.
    pub position: Option<(i32, i32)>,
    pub width: u32,
    pub height: u32,
    pub frame: WindowFrame,
    pub always_on_top: bool,
}

/// The frame a display mode implies.
pub open spec fn default_frame(mode: DisplayMode) -> WindowFrame {
    match mode {
        DisplayMode::Fullscreen => WindowFrame::Borderless,
        DisplayMode::Windowed => WindowFrame::Frameless,
    }
}

/// `cfg` filled in: a half-specified position takes 0 for the other half, an unset size
/// is the framebuffer's, an unset frame follows the mode.
pub open spec fn resolved(
    cfg: WindowCfg,
    framebuffer: (u32, u32),
    mode: DisplayMode,
) -> ResolvedWindowCfg {
    ResolvedWindowCfg {
        position: match (cfg.x, cfg.y) {
            (None, None) => None,
            (Some(x), None) => Some((x, 0)),
            (None, Some(y)) => Some((0, y)),
            (Some(x), Some(y)) => Some((x, y)),
        },
        width: match cfg.width {
            Some(w) => w@,
            None => framebuffer.0,
        },
        height: match cfg.height {
            Some(h) => h@,
            None => framebuffer.1,
        },
        frame: match cfg.frame {
            Some(frame) => frame,
            None => default_frame(mode),
        },
        always_on_top: cfg.always_on_top,
    }
}

impl ResolvedWindowCfg {
    /// Fills in what `cfg` leaves unset.
    pub fn new(cfg: &WindowCfg, framebuffer: (u32, u32), mode: DisplayMode) -> (res:
        ResolvedWindowCfg)
        ensures
            res == resolved(*cfg, framebuffer, mode),
    {
        let position = match (cfg.x, cfg.y) {
            (None, None) => None,
            (Some(x), None) => Some((x, 0)),
            (None, Some(y)) => Some((0, y)),
            (Some(x), Some(y)) => Some((x, y)),
        };
        let width: u32 = match &cfg.width {
            Some(w) => w.get(),
            None => framebuffer.0,
        };
        let height: u32 = match &cfg.height {
            Some(h) => h.get(),
            None => framebuffer.1,
        };
        let frame = match cfg.frame {
            Some(frame) => frame,
            None => match mode {
                DisplayMode::Fullscreen => WindowFrame::Borderless,
                DisplayMode::Windowed => WindowFrame::Frameless,
            },
        };
        ResolvedWindowCfg { position, width, height, frame, always_on_top: cfg.always_on_top }
    }
}

/// The resolved form of a [`WindowPolicy`].
#[derive(Clone, Copy, Debug)]
pub enum State {
    Restyle { restyle: ResolvedWindowCfg },
    DeferToGame { always_on_top: bool },
}

impl State {
    /// Whether the window belongs in the topmost band.
    pub open spec fn on_top(self) -> bool {
        match self {
            State::Restyle { restyle } => restyle.always_on_top,
            State::DeferToGame { always_on_top } => always_on_top,
        }
    }

    /// Resolves `policy` against the `[window]` section.
    pub fn resolve(cfg: &WindowCfg, policy: WindowPolicy) -> (state: State)
        ensures
            state == match policy {
                WindowPolicy::Restyle { framebuffer, display_mode } => State::Restyle {
                    restyle: resolved(*cfg, framebuffer, display_mode),
                },
                WindowPolicy::DeferToGame => State::DeferToGame {
                    always_on_top: cfg.always_on_top,
                },
            },
            state.on_top() == cfg.always_on_top,
    {
        match policy {
            WindowPolicy::Restyle { framebuffer, display_mode } => State::Restyle {
                restyle: ResolvedWindowCfg::new(cfg, framebuffer, display_mode),
            },
            WindowPolicy::DeferToGame => State::DeferToGame { always_on_top: cfg.always_on_top },
        }
    }
}

/// The positional and style arguments of a window creation.
#[derive(Clone, Copy, Debug, PartialEq, Eq, Structural)]
pub struct CreationArgs {
    pub x: i32,
    pub y: i32,
    pub width: i32,
    pub height: i32,
    pub style: u32,
    pub ex_style: u32,
}

/// The creation style of a frame. A window that is neither a child nor a popup is given a
/// caption by the system, so the captionless frames are popups.
pub open spec fn style_of(frame: WindowFrame) -> u32 {
    match frame {
        WindowFrame::Framed => WS_OVERLAPPED | WS_CAPTION | WS_SYSMENU | WS_MINIMIZEBOX
            | WS_MAXIMIZEBOX | WS_VISIBLE,
        WindowFrame::Frameless => WS_POPUP | WS_SYSMENU | WS_MINIMIZEBOX | WS_MAXIMIZEBOX
            | WS_VISIBLE,
        WindowFrame::Borderless => WS_POPUP | WS_VISIBLE,
    }
}

pub fn frame_style(frame: WindowFrame) -> (style: u32)
    ensures
        style == style_of(frame),
{
    match frame {
        WindowFrame::Framed => WS_OVERLAPPED | WS_CAPTION | WS_SYSMENU | WS_MINIMIZEBOX
            | WS_MAXIMIZEBOX | WS_VISIBLE,
        WindowFrame::Frameless => WS_POPUP | WS_SYSMENU | WS_MINIMIZEBOX | WS_MAXIMIZEBOX
            | WS_VISIBLE,
        WindowFrame::Borderless => WS_POPUP | WS_VISIBLE,
    }
}

/// Every frame is created visible, and has a caption exactly when it is no popup.
pub proof fn lemma_frame_styles(frame: WindowFrame)
    ensures
        style_of(frame) & WS_VISIBLE != 0,
        (style_of(frame) & WS_CAPTION == WS_CAPTION) != (style_of(frame) & WS_POPUP != 0),
        (style_of(frame) & WS_POPUP == 0) == (frame == WindowFrame::Framed),
{
    let framed = style_of(WindowFrame::Framed);
    let frameless = style_of(WindowFrame::Frameless);
    let borderless = style_of(WindowFrame::Borderless);
    assert(framed & WS_VISIBLE != 0 && framed & WS_CAPTION == WS_CAPTION && framed & WS_POPUP == 0
        && frameless & WS_VISIBLE != 0 && frameless & WS_CAPTION != WS_CAPTION && frameless
        & WS_POPUP != 0 && borderless & WS_VISIBLE != 0 && borderless & WS_CAPTION != WS_CAPTION
        && borderless & WS_POPUP != 0) by (bit_vector)
        requires
            framed == WS_OVERLAPPED | WS_CAPTION | WS_SYSMENU | WS_MINIMIZEBOX | WS_MAXIMIZEBOX
                | WS_VISIBLE,
            frameless == WS_POPUP | WS_SYSMENU | WS_MINIMIZEBOX | WS_MAXIMIZEBOX | WS_VISIBLE,
            borderless == WS_POPUP | WS_VISIBLE,
    ;
}

/// `ex_style`, with the topmost bit set when the window is to stay on top.
pub open spec fn with_topmost(ex_style: u32, always_on_top: bool) -> u32 {
    if always_on_top {
        ex_style | WS_EX_TOPMOST
    } else {
        ex_style
    }
}

pub fn topmost_ex_style(ex_style: u32, always_on_top: bool) -> (res: u32)
    ensures
        res == with_topmost(ex_style, always_on_top),
{
    if always_on_top {
        ex_style | WS_EX_TOPMOST
    } else {
        ex_style
    }
}

/// Whether the policy replaces the geometry and style of a creation: the main window of a
/// restyled game, unless the game asked for a popup.
pub open spec fn restyles(state: State, is_main: bool, requested: CreationArgs) -> bool {
    is_main && state is Restyle && requested.style & WS_POPUP == 0
}

/// Whether the extents of `r` fit the coordinate type.
pub open spec fn extents_fit(r: Rect) -> bool {
    i32::MIN <= r.right - r.left <= i32::MAX && i32::MIN <= r.bottom - r.top <= i32::MAX
}

/// The arguments the window is created with. `adjusted` is the outer rectangle that the
/// system computes for the configured client size; it matters only where the policy
/// restyles.
pub open spec fn prepared(
    state: State,
    is_main: bool,
    requested: CreationArgs,
    adjusted: Rect,
) -> CreationArgs {
    if restyles(state, is_main, requested) {
        let restyle = state->restyle;
        CreationArgs {
            x: match restyle.position {
                Some(p) => p.0,
                None => CW_USEDEFAULT,
            },
            y: match restyle.position {
                Some(p) => p.1,
                None => CW_USEDEFAULT,
            },
            width: (adjusted.right - adjusted.left) as i32,
            height: (adjusted.bottom - adjusted.top) as i32,
            style: style_of(restyle.frame),
            ex_style: with_topmost(0, restyle.always_on_top),
        }
    } else if is_main {
        CreationArgs { ex_style: with_topmost(requested.ex_style, state.on_top()), ..requested }
    } else {
        requested
    }
}

/// What the system is asked to compute an outer rectangle for.
#[derive(Clone, Copy, Debug, PartialEq, Eq, Structural)]
pub struct AdjustRequest {
    pub client: Rect,
    pub style: u32,
    pub ex_style: u32,
}

/// The outer rectangle that [`prep_main_window`] needs, if it needs one.
pub fn adjust_request(state: &State, is_main: bool, requested: CreationArgs) -> (res: Option<
    AdjustRequest,
>)
    ensures
        res == if restyles(*state, is_main, requested) {
            let restyle = (*state)->restyle;
            Some(
                AdjustRequest {
                    client: Rect {
                        left: 0,
                        top: 0,
                        right: bytes::as_signed(restyle.width),
                        bottom: bytes::as_signed(restyle.height),
                    },
                    style: style_of(restyle.frame),
                    ex_style: with_topmost(0, restyle.always_on_top),
                },
            )
        } else {
            None
        },
{
    match state {
        State::Restyle { restyle } => {
            if is_main && requested.style & WS_POPUP == 0 {
                Some(
                    AdjustRequest {
                        client: Rect {
                            left: 0,
                            top: 0,
                            right: cast_signed(restyle.width),
                            bottom: cast_signed(restyle.height),
                        },
                        style: frame_style(restyle.frame),
                        ex_style: topmost_ex_style(0, restyle.always_on_top),
                    },
                )
            } else {
                None
            }
        },
        State::DeferToGame { .. } => None,
    }
}

/// Computes the creation arguments for a window. Windows other than the main one keep
/// the game's own request.
pub fn prep_main_window(
    state: &State,
    is_main: bool,
    requested: CreationArgs,
    adjusted: Rect,
) -> (args: CreationArgs)
    requires
        restyles(*state, is_main, requested) ==> extents_fit(adjusted),
    ensures
        args == prepared(*state, is_main, requested, adjusted),
{
    if !is_main {
        return requested;
    }
    match state {
        State::Restyle { restyle } => {
            if requested.style & WS_POPUP == 0 {
                let (x, y): (i32, i32) = match restyle.position {
                    Some(p) => p,
                    None => (CW_USEDEFAULT, CW_USEDEFAULT),
                };
                return CreationArgs {
                    x,
                    y,
                    width: adjusted.right - adjusted.left,
                    height: adjusted.bottom - adjusted.top,
                    style: frame_style(restyle.frame),
                    ex_style: topmost_ex_style(0, restyle.always_on_top),
                };
            }
            CreationArgs {
                ex_style: topmost_ex_style(requested.ex_style, restyle.always_on_top),
                ..requested
            }
        },
        State::DeferToGame { always_on_top } => CreationArgs {
            ex_style: topmost_ex_style(requested.ex_style, *always_on_top),
            ..requested
        },
    }
}

/// The style bits that the policy decides. Everything else stays as the live window has
/// it.
pub const POLICY_STYLE_MASK: u32 = 0x80cf_0000;

/// The mask holds every frame's bits but visibility and every bit of an overlapped
/// window, so that nothing of the game's frame stays behind; and no bit that the system
/// maintains, which would leave a plan unsatisfied for ever.
pub proof fn lemma_policy_mask(frame: WindowFrame)
    ensures
        style_of(frame) & !WS_VISIBLE & !POLICY_STYLE_MASK == 0,
        WS_OVERLAPPEDWINDOW & !WS_VISIBLE & !POLICY_STYLE_MASK == 0,
        POLICY_STYLE_MASK & WS_CLIPSIBLINGS == 0,
        POLICY_STYLE_MASK & WS_VISIBLE == 0,
{
    let style = style_of(frame);
    assert(style & !WS_VISIBLE & !POLICY_STYLE_MASK == 0 && WS_OVERLAPPEDWINDOW & !WS_VISIBLE
        & !POLICY_STYLE_MASK == 0 && POLICY_STYLE_MASK & WS_CLIPSIBLINGS == 0 && POLICY_STYLE_MASK
        & WS_VISIBLE == 0) by (bit_vector)
        requires
            style == WS_OVERLAPPED | WS_CAPTION | WS_SYSMENU | WS_MINIMIZEBOX | WS_MAXIMIZEBOX
                | WS_VISIBLE || style == WS_POPUP | WS_SYSMENU | WS_MINIMIZEBOX | WS_MAXIMIZEBOX
                | WS_VISIBLE || style == WS_POPUP | WS_VISIBLE,
    ;
}

/// What has to change about a live window.
#[derive(Clone, Copy, Debug)]
pub struct RestylePlan {
    /// The full replacement style, or `None` to leave the live one alone.
    pub style: Option<u32>,
    /// The topmost band to move into, or `None` to stay in the one the window is in.
    pub band: Option<bool>,
    /// The position to change to, or `None` to keep the current one.
    pub position: Option<(i32, i32)>,
    /// The size to change to, or `None` to keep the current one.
    pub size: Option<(i32, i32)>,
}

/// Whether an extended style lies in the topmost band.
pub open spec fn is_topmost(ex_style: u32) -> bool {
    ex_style & WS_EX_TOPMOST != 0
}

/// The live style with the policy's bits replaced by those of `wanted`.
pub open spec fn masked_style(live: u32, wanted: u32) -> u32 {
    (live & !POLICY_STYLE_MASK) | (wanted & POLICY_STYLE_MASK)
}

/// The changes that make `live` what creation with `args` would have made it.
pub open spec fn changes(live: CreationArgs, args: CreationArgs) -> RestylePlan {
    RestylePlan {
        style: if masked_style(live.style, args.style) != live.style {
            Some(masked_style(live.style, args.style))
        } else {
            None
        },
        band: if is_topmost(args.ex_style) != is_topmost(live.ex_style) {
            Some(is_topmost(args.ex_style))
        } else {
            None
        },
        position: if args.x != CW_USEDEFAULT && (args.x != live.x || args.y != live.y) {
            Some((args.x, args.y))
        } else {
            None
        },
        size: if args.width != live.width || args.height != live.height {
            Some((args.width, args.height))
        } else {
            None
        },
    }
}

impl RestylePlan {
    /// Whether there is nothing to change.
    pub open spec fn is_empty(self) -> bool {
        self.style is None && self.band is None && self.position is None && self.size is None
    }

    /// The window after the plan was carried out.
    pub open spec fn applied(self, live: CreationArgs) -> CreationArgs {
        CreationArgs {
            x: match self.position {
                Some(p) => p.0,
                None => live.x,
            },
            y: match self.position {
                Some(p) => p.1,
                None => live.y,
            },
            width: match self.size {
                Some(s) => s.0,
                None => live.width,
            },
            height: match self.size {
                Some(s) => s.1,
                None => live.height,
            },
            style: match self.style {
                Some(style) => style,
                None => live.style,
            },
            ex_style: match self.band {
                Some(true) => live.ex_style | WS_EX_TOPMOST,
                Some(false) => live.ex_style & !WS_EX_TOPMOST,
                None => live.ex_style,
            },
        }
    }
}

/// The plan for `live`, or `None` when it satisfies the policy.
pub open spec fn plan_for(state: State, live: CreationArgs, adjusted: Rect) -> Option<RestylePlan> {
    let plan = changes(live, prepared(state, true, live, adjusted));
    if plan.is_empty() {
        None
    } else {
        Some(plan)
    }
}

/// Plans what has to change about a live window, or returns `None` when it satisfies the
/// policy.
pub fn restyle_plan(state: &State, live: CreationArgs, adjusted: Rect) -> (res: Option<
    RestylePlan,
>)
    requires
        restyles(*state, true, live) ==> extents_fit(adjusted),
    ensures
        res == plan_for(*state, live, adjusted),
{
    let args = prep_main_window(state, true, live, adjusted);
    let styled: u32 = (live.style & !POLICY_STYLE_MASK) | (args.style & POLICY_STYLE_MASK);
    let style = if styled != live.style {
        Some(styled)
    } else {
        None
    };
    let wants_topmost = args.ex_style & WS_EX_TOPMOST != 0;
    let band = if wants_topmost != (live.ex_style & WS_EX_TOPMOST != 0) {
        Some(wants_topmost)
    } else {
        None
    };
    let position = if args.x != CW_USEDEFAULT && (args.x != live.x || args.y != live.y) {
        Some((args.x, args.y))
    } else {
        None
    };
    let size = if args.width != live.width || args.height != live.height {
        Some((args.width, args.height))
    } else {
        None
    };
    if style.is_none() && band.is_none() && position.is_none() && size.is_none() {
        None
    } else {
        Some(RestylePlan { style, band, position, size })
    }
}

proof fn lemma_style_bits(live: u32, wanted: u32, now: u32, ex: u32)
    ensures
        masked_style(masked_style(live, wanted), wanted) == masked_style(live, wanted),
        masked_style(live, wanted) & WS_POPUP == wanted & WS_POPUP,
        masked_style(live, live) == live,
        now & !WS_VISIBLE == masked_style(live, wanted) & !WS_VISIBLE ==> masked_style(now, wanted)
            == now && now & WS_POPUP == wanted & WS_POPUP,
        is_topmost(ex | WS_EX_TOPMOST),
        !is_topmost(ex & !WS_EX_TOPMOST),
        !is_topmost(0),
{
    let masked = masked_style(live, wanted);
    assert((masked & !POLICY_STYLE_MASK) | (wanted & POLICY_STYLE_MASK) == masked && masked
        & WS_POPUP == wanted & WS_POPUP && (live & !POLICY_STYLE_MASK) | (live & POLICY_STYLE_MASK)
        == live && (now & !WS_VISIBLE == masked & !WS_VISIBLE ==> (now & !POLICY_STYLE_MASK) | (
    wanted & POLICY_STYLE_MASK) == now && now & WS_POPUP == wanted & WS_POPUP) && (ex
        | WS_EX_TOPMOST) & WS_EX_TOPMOST != 0 && (ex & !WS_EX_TOPMOST) & WS_EX_TOPMOST == 0 && 0u32
        & WS_EX_TOPMOST == 0) by (bit_vector)
        requires
            masked == (live & !POLICY_STYLE_MASK) | (wanted & POLICY_STYLE_MASK),
    ;
}

/// A restyle is carried out once: a window to which a plan was applied, shown or hidden
/// since, satisfies the policy.
pub proof fn lemma_restyle_idempotent(
    state: State,
    live: CreationArgs,
    adjusted: Rect,
    now: CreationArgs,
)
    requires
        plan_for(state, live, adjusted) is Some,
        ({
            let applied = plan_for(state, live, adjusted)->0.applied(live);
            now.style & !WS_VISIBLE == applied.style & !WS_VISIBLE && now == (CreationArgs {
                style: now.style,
                ..applied
            })
        }),
    ensures
        plan_for(state, now, adjusted) is None,
{
    let args = prepared(state, true, live, adjusted);
    lemma_style_bits(live.style, args.style, now.style, live.ex_style);
    lemma_style_bits(now.style, now.style, now.style, now.ex_style);
    assert(masked_style(live.style, args.style) == live.style || plan_for(
        state,
        live,
        adjusted,
    )->0.style == Some(masked_style(live.style, args.style)));
    lemma_style_bits(live.style, live.style, now.style, live.ex_style);
    if let State::Restyle { restyle } = state {
        lemma_frame_styles(restyle.frame);
    }
    lemma_style_bits(0, 0, 0, 0);
}

/// A window created through the policy satisfies it later: whatever the system added
/// outside the policy's bits and wherever it placed a window left to it, there is nothing
/// to restyle.
pub proof fn lemma_created_window_satisfies_policy(
    state: State,
    requested: CreationArgs,
    adjusted: Rect,
    live: CreationArgs,
)
    requires
        ({
            let args = prepared(state, true, requested, adjusted);
            &&& live.style & POLICY_STYLE_MASK == args.style & POLICY_STYLE_MASK
            &&& is_topmost(live.ex_style) == is_topmost(args.ex_style)
            &&& live.width == args.width && live.height == args.height
            &&& args.x != CW_USEDEFAULT ==> live.x == args.x && live.y == args.y
        }),
    ensures
        plan_for(state, live, adjusted) is None,
{
    let args = prepared(state, true, requested, adjusted);
    let again = prepared(state, true, live, adjusted);
    let (a, b) = (live.style, args.style);
    assert((a & !POLICY_STYLE_MASK) | (b & POLICY_STYLE_MASK) == a && a & WS_POPUP == b & WS_POPUP)
        by (bit_vector)
        requires
            a & POLICY_STYLE_MASK == b & POLICY_STYLE_MASK,
    ;
    lemma_style_bits(live.style, live.style, 0, live.ex_style);
    lemma_style_bits(0, 0, 0, 0);
    lemma_style_bits(0, 0, 0, requested.ex_style);
    if let State::Restyle { restyle } = state {
        lemma_frame_styles(restyle.frame);
    }
}

/// Where in the Z-order a window is moved to.
#[derive(Clone, Copy, Debug, PartialEq, Eq, Structural)]
pub enum InsertAfter {
    Topmost,
    NotTopmost,
    Unchanged,
}

/// One call that moves, sizes or shows a window.
#[derive(Clone, Copy, Debug, PartialEq, Eq, Structural)]
pub struct SetPos {
    pub insert_after: InsertAfter,
    pub x: i32,
    pub y: i32,
    pub width: i32,
    pub height: i32,
    pub flags: u32,
}

/// The calls that carry out a restyle, in order: hide, write the style, move.
#[derive(Clone, Copy, Debug, PartialEq, Eq, Structural)]
pub struct PolicyCalls {
    /// Hides the window first, by this call.
    pub hide: Option<SetPos>,
    /// The style to write.
    pub style: Option<u32>,
    pub set_pos: SetPos,
}

/// `flag` when it is wanted.
pub open spec fn flag_if(wanted: bool, flag: u32) -> u32 {
    if wanted {
        flag
    } else {
        0
    }
}

/// A call that changes nothing but what `flags` say.
pub open spec fn flags_only(flags: u32) -> SetPos {
    SetPos { insert_after: InsertAfter::Unchanged, x: 0, y: 0, width: 0, height: 0, flags }
}

/// The calls that carry out `plan`. A frame is changed only while the window is hidden.
pub open spec fn calls_for(plan: RestylePlan, live: CreationArgs) -> PolicyCalls {
    let hide = plan.style is Some && live.style & WS_VISIBLE != 0;
    PolicyCalls {
        hide: if hide {
            Some(
                flags_only(
                    SWP_NOSIZE | SWP_NOMOVE | SWP_NOZORDER | SWP_NOACTIVATE | SWP_HIDEWINDOW,
                ),
            )
        } else {
            None
        },
        style: match plan.style {
            Some(style) => Some(
                if hide {
                    style & !WS_VISIBLE
                } else {
                    style
                },
            ),
            None => None,
        },
        set_pos: SetPos {
            insert_after: match plan.band {
                Some(true) => InsertAfter::Topmost,
                Some(false) => InsertAfter::NotTopmost,
                None => InsertAfter::Unchanged,
            },
            x: match plan.position {
                Some(p) => p.0,
                None => 0,
            },
            y: match plan.position {
                Some(p) => p.1,
                None => 0,
            },
            width: match plan.size {
                Some(s) => s.0,
                None => 0,
            },
            height: match plan.size {
                Some(s) => s.1,
                None => 0,
            },
            flags: SWP_NOACTIVATE | flag_if(plan.style is Some, SWP_FRAMECHANGED) | flag_if(
                plan.position is None,
                SWP_NOMOVE,
            ) | flag_if(plan.size is None, SWP_NOSIZE) | flag_if(plan.band is None, SWP_NOZORDER),
        },
    }
}

/// Writes `plan` down as calls.
pub fn policy_calls(plan: RestylePlan, live: CreationArgs) -> (calls: PolicyCalls)
    ensures
        calls == calls_for(plan, live),
{
    let frame_changed = plan.style.is_some();
    let hide = frame_changed && live.style & WS_VISIBLE != 0;
    let style = match plan.style {
        Some(style) => Some(
            if hide {
                style & !WS_VISIBLE
            } else {
                style
            },
        ),
        None => None,
    };
    let (x, y): (i32, i32) = match plan.position {
        Some(p) => p,
        None => (0, 0),
    };
    let (width, height): (i32, i32) = match plan.size {
        Some(s) => s,
        None => (0, 0),
    };
    let frame_flag: u32 = if frame_changed {
        SWP_FRAMECHANGED
    } else {
        0
    };
    let move_flag: u32 = if plan.position.is_none() {
        SWP_NOMOVE
    } else {
        0
    };
    let size_flag: u32 = if plan.size.is_none() {
        SWP_NOSIZE
    } else {
        0
    };
    let order_flag: u32 = if plan.band.is_none() {
        SWP_NOZORDER
    } else {
        0
    };
    let insert_after = match plan.band {
        Some(true) => InsertAfter::Topmost,
        Some(false) => InsertAfter::NotTopmost,
        None => InsertAfter::Unchanged,
    };
    PolicyCalls {
        hide: if hide {
            Some(
                SetPos {
                    insert_after: InsertAfter::Unchanged,
                    x: 0,
                    y: 0,
                    width: 0,
                    height: 0,
                    flags: SWP_NOSIZE | SWP_NOMOVE | SWP_NOZORDER | SWP_NOACTIVATE | SWP_HIDEWINDOW,
                },
            )
        } else {
            None
        },
        style,
        set_pos: SetPos {
            insert_after,
            x,
            y,
            width,
            height,
            flags: SWP_NOACTIVATE | frame_flag | move_flag | size_flag | order_flag,
        },
    }
}

/// How the policy was evaluated for a live window.
pub enum PolicyOutcome {
    /// No policy is installed, or the window could not be read.
    NotEvaluated,
    /// The window satisfies the policy.
    Satisfied,
    /// These calls make it satisfy the policy.
    Apply(PolicyCalls),
}

/// A live window as creation arguments.
pub open spec fn live_of(rc: Rect, style: i32, ex_style: i32) -> CreationArgs {
    CreationArgs {
        x: rc.left,
        y: rc.top,
        width: (rc.right - rc.left) as i32,
        height: (rc.bottom - rc.top) as i32,
        style: bytes::as_unsigned(style),
        ex_style: bytes::as_unsigned(ex_style),
    }
}

/// Reads a live window from its outer rectangle and its two style words.
pub fn live_args(rc: Rect, style: i32, ex_style: i32) -> (live: CreationArgs)
    requires
        extents_fit(rc),
    ensures
        live == live_of(rc, style, ex_style),
{
    CreationArgs {
        x: rc.left,
        y: rc.top,
        width: rc.right - rc.left,
        height: rc.bottom - rc.top,
        style: cast_unsigned(style),
        ex_style: cast_unsigned(ex_style),
    }
}

/// Plans the policy against a live window, if both are there.
pub fn apply_window_policy(
    state: Option<&State>,
    live: Option<CreationArgs>,
    adjusted: Rect,
) -> (outcome: PolicyOutcome)
    requires
        state is Some && live is Some && restyles(*state->0, true, live->0) ==> extents_fit(
            adjusted,
        ),
    ensures
        match outcome {
            PolicyOutcome::NotEvaluated => state is None || live is None,
            PolicyOutcome::Satisfied => state is Some && live is Some && plan_for(
                *state->0,
                live->0,
                adjusted,
            ) is None,
            PolicyOutcome::Apply(calls) => {
                &&& state is Some && live is Some
                &&& plan_for(*state->0, live->0, adjusted) is Some
                &&& calls == calls_for(plan_for(*state->0, live->0, adjusted)->0, live->0)
            },
        },
{
    match (state, live) {
        (Some(state), Some(live)) => match restyle_plan(state, live, adjusted) {
            Some(plan) => PolicyOutcome::Apply(policy_calls(plan, live)),
            None => PolicyOutcome::Satisfied,
        },
        _ => PolicyOutcome::NotEvaluated,
    }
}

/// Which window one piece of window setup was last applied to; 0 for none.
pub struct AppliedTo {
    hwnd: usize,
}

impl View for AppliedTo {
    type V = usize;

    closed spec fn view(&self) -> usize {
        self.hwnd
    }
}

impl AppliedTo {
    pub fn new() -> (applied: AppliedTo)
        ensures
            applied@ == 0,
    {
        AppliedTo { hwnd: 0 }
    }

    /// Whether this work was already done for `hwnd`.
    pub fn covers(&self, hwnd: usize) -> (res: bool)
        ensures
            res == (hwnd != 0 && self@ == hwnd),
    {
        hwnd != 0 && self.hwnd == hwnd
    }

    /// Claims `hwnd` as done.
    pub fn claim(&mut self, hwnd: usize)
        ensures
            final(self)@ == hwnd,
    {
        self.hwnd = hwnd;
    }
}

/// The game's main window, and the one styled last.
pub struct MainWindow {
    main: usize,
    styled: AppliedTo,
}

/// What follows the creation of a window.
#[derive(Clone, Copy, Debug, PartialEq, Eq, Structural)]
pub enum Created {
    /// Some other window.
    NotMain,
    /// The main window could not be created.
    Failed,
    /// The main window is there; its title is to be set.
    Main,
}

/// Why a device window needs no restyle, or that it does.
#[derive(Clone, Copy, Debug, PartialEq, Eq, Structural)]
pub enum RestyleNeed {
    NoWindow,
    NotTopLevel,
    StyledAtCreation,
    Evaluate,
}

impl MainWindow {
    /// The main window, or 0 before the first creation.
    pub closed spec fn main_window(&self) -> usize {
        self.main
    }

    /// The window styled last, or 0.
    pub closed spec fn styled(&self) -> usize {
        self.styled@
    }

    pub fn new() -> (w: MainWindow)
        ensures
            w.main_window() == 0,
            w.styled() == 0,
    {
        MainWindow { main: 0, styled: AppliedTo::new() }
    }

    /// The game's main render window, or 0 before the first creation.
    pub fn main_hwnd(&self) -> (hwnd: usize)
        ensures
            hwnd == self.main_window(),
    {
        self.main
    }

    /// Records the main window after its creation. This runs on first creation and again
    /// on every recreation.
    pub fn finish_main_window(&mut self, hwnd: usize, is_main: bool) -> (res: Created)
        ensures
            res == (if !is_main {
                Created::NotMain
            } else if hwnd == 0 {
                Created::Failed
            } else {
                Created::Main
            }),
            final(self).main_window() == (if res == Created::Main {
                hwnd
            } else {
                old(self).main_window()
            }),
            final(self).styled() == (if res == Created::Main {
                hwnd
            } else {
                old(self).styled()
            }),
    {
        if !is_main {
            return Created::NotMain;
        }
        if hwnd == 0 {
            return Created::Failed;
        }
        self.main = hwnd;
        self.styled.claim(hwnd);
        Created::Main
    }

    /// Decides at device creation whether the policy still has to be applied to the
    /// device's window. A top-level window becomes the main window when none is recorded
    /// or the recorded one is gone.
    pub fn restyle_device_window(
        &mut self,
        hwnd: usize,
        top_level: bool,
        recorded_is_window: bool,
    ) -> (need: RestyleNeed)
        ensures
            need == (if hwnd == 0 {
                RestyleNeed::NoWindow
            } else if !top_level {
                RestyleNeed::NotTopLevel
            } else if old(self).styled() == hwnd {
                RestyleNeed::StyledAtCreation
            } else {
                RestyleNeed::Evaluate
            }),
            final(self).styled() == old(self).styled(),
            final(self).main_window() == (if hwnd != 0 && top_level && (old(self).main_window() == 0
                || !recorded_is_window) {
                hwnd
            } else {
                old(self).main_window()
            }),
    {
        if hwnd == 0 {
            return RestyleNeed::NoWindow;
        }
        if !top_level {
            return RestyleNeed::NotTopLevel;
        }
        if self.main == 0 || !recorded_is_window {
            self.main = hwnd;
        }
        if self.styled.covers(hwnd) {
            RestyleNeed::StyledAtCreation
        } else {
            RestyleNeed::Evaluate
        }
    }

    /// Records the outcome of the policy for the device window. A window whose policy
    /// could not be evaluated is not claimed as styled.
    pub fn finish_restyle(&mut self, hwnd: usize, outcome: &PolicyOutcome) -> (window: DeviceWindow)
        ensures
            final(self).main_window() == old(self).main_window(),
            final(self).styled() == (if *outcome is NotEvaluated {
                old(self).styled()
            } else {
                hwnd
            }),
            window == (DeviceWindow {
                hwnd,
                hidden_for_restyle: *outcome is Apply && (*outcome)->0.hide is Some,
            }),
    {
        let hidden_for_restyle = match outcome {
            PolicyOutcome::NotEvaluated => false,
            PolicyOutcome::Satisfied => {
                self.styled.claim(hwnd);
                false
            },
            PolicyOutcome::Apply(calls) => {
                self.styled.claim(hwnd);
                calls.hide.is_some()
            },
        };
        DeviceWindow { hwnd, hidden_for_restyle }
    }
}

/// Whether a window with this style is top-level, given that it exists.
pub fn is_top_level(is_window: bool, style: i32) -> (res: bool)
    ensures
        res == (is_window && bytes::as_unsigned(style) & WS_CHILD == 0),
{
    is_window && cast_unsigned(style) & WS_CHILD == 0
}

/// The device's target window.
#[derive(Clone, Copy, Debug, PartialEq, Eq, Structural)]
pub struct DeviceWindow {
    pub hwnd: usize,
    pub hidden_for_restyle: bool,
}

/// The calls that put a window on screen.
#[derive(Clone, Copy, Debug, PartialEq, Eq, Structural)]
pub struct ShowCalls {
    /// Settle the message queue before the window is shown.
    pub settle: bool,
    /// The call that shows it.
    pub show: Option<SetPos>,
}

impl DeviceWindow {
    /// The call that maps the window. Activation is taken only on its first appearance, so
    /// that focus isn't stolen mid-session.
    pub open spec fn show_call(self, visible: bool) -> Option<SetPos> {
        if self.hwnd == 0 {
            None
        } else {
            Some(
                flags_only(
                    SWP_NOSIZE | SWP_NOMOVE | SWP_NOZORDER | SWP_SHOWWINDOW | flag_if(
                        self.hidden_for_restyle || visible,
                        SWP_NOACTIVATE,
                    ),
                ),
            )
        }
    }

    fn show(&self, visible: bool) -> (call: Option<SetPos>)
        ensures
            call == self.show_call(visible),
    {
        if self.hwnd == 0 {
            return None;
        }
        let activate_flag: u32 = if self.hidden_for_restyle || visible {
            SWP_NOACTIVATE
        } else {
            0
        };
        Some(
            SetPos {
                insert_after: InsertAfter::Unchanged,
                x: 0,
                y: 0,
                width: 0,
                height: 0,
                flags: SWP_NOSIZE | SWP_NOMOVE | SWP_NOZORDER | SWP_SHOWWINDOW | activate_flag,
            },
        )
    }

    /// Puts the window on screen after a successful device creation; `visible` is whether
    /// it is already.
    pub fn bring_up(&self, visible: bool) -> (calls: ShowCalls)
        ensures
            calls.settle == self.hidden_for_restyle,
            calls.show == self.show_call(visible),
    {
        ShowCalls { settle: self.hidden_for_restyle, show: self.show(visible) }
    }

    /// Undoes the restyle's hide after a failed device creation. A window that was not
    /// hidden is left alone.
    pub fn restore(&self, visible: bool) -> (calls: ShowCalls)
        ensures
            calls.settle == self.hidden_for_restyle,
            calls.show == (if self.hidden_for_restyle {
                self.show_call(visible)
            } else {
                None
            }),
    {
        ShowCalls {
            settle: self.hidden_for_restyle,
            show: if self.hidden_for_restyle {
                self.show(visible)
            } else {
                None
            },
        }
    }
}

/// Whatever a restyle hides comes back, however the device creation ends, and without
/// taking activation.
pub proof fn lemma_hidden_window_comes_back(window: DeviceWindow, visible: bool)
    requires
        window.hwnd != 0,
        window.hidden_for_restyle,
    ensures
        window.show_call(visible) is Some,
        window.show_call(visible)->0.flags & SWP_SHOWWINDOW != 0,
        window.show_call(visible)->0.flags & SWP_NOACTIVATE != 0,
{
    let flags = window.show_call(visible)->0.flags;
    assert(flags & SWP_SHOWWINDOW != 0 && flags & SWP_NOACTIVATE != 0) by (bit_vector)
        requires
            flags == SWP_NOSIZE | SWP_NOMOVE | SWP_NOZORDER | SWP_SHOWWINDOW | SWP_NOACTIVATE,
    ;
}

/// Whether a creation through the ANSI import is the render window's: it has no parent,
/// and `n` units that could be read at its class name are the class and a NUL.
pub fn is_main_ansi(parent: usize, class: &[u8], n: usize) -> (res: bool)
    requires
        n <= class@.len(),
    ensures
        res == (parent == 0 && class@.take(n as int) == seq![0x42u8, 0x41u8, 0x53u8, 0x45u8, 0u8]),
{
    let name: [u8; 4] = [0x42, 0x41, 0x53, 0x45];
    assert(name@.push(0u8) =~= seq![0x42u8, 0x41u8, 0x53u8, 0x45u8, 0u8]);
    parent == 0 && matches_nul_terminated(class, n, &name)
}

/// Whether a creation through the wide import is the render window's.
pub fn is_main_wide(parent: usize, class: &[u16], n: usize) -> (res: bool)
    requires
        n <= class@.len(),
    ensures
        res == (parent == 0 && class@.take(n as int) == seq![
            0x42u16,
            0x41u16,
            0x53u16,
            0x45u16,
            0u16,
        ]),
{
    let name: [u16; 4] = [0x42, 0x41, 0x53, 0x45];
    assert(name@.push(0u16) =~= seq![0x42u16, 0x41u16, 0x53u16, 0x45u16, 0u16]);
    parent == 0 && matches_nul_terminated(class, n, &name)
}

/// What is appended to the game's title.
pub open spec fn title_suffix(version: Seq<char>) -> Seq<u16> {
    (text::utf16(" + neopatch v"@) + text::utf16(version)).push(0)
}

/// Appends the version identifier, NUL-terminated.
pub fn append_suffix(wide: &mut Vec<u16>, version: &str)
    ensures
        final(wide)@ == old(wide)@ + title_suffix(version@),
{
    push_utf16(wide, " + neopatch v");
    push_utf16(wide, version);
    wide.push(0);
    assert(wide@ =~= old(wide)@ + title_suffix(version@));
}

/// The title to set, from the game's title as NUL-terminated UTF-16 (`None` when it could
/// not be converted).
pub fn build_extended_title_from_sjis(converted: Option<Vec<u16>>, version: &str) -> (title: Option<
    Vec<u16>,
>)
    requires
        converted is Some ==> converted->0@.len() > 0,
    ensures
        match converted {
            Some(wide) => title is Some && title->0@ == wide@.drop_last() + title_suffix(version@),
            None => title is None,
        },
{
    match converted {
        Some(wide) => {
            let mut wide = wide;
            wide.pop();
            append_suffix(&mut wide, version);
            Some(wide)
        },
        None => None,
    }
}

/// The title to set, from the game's title as read; `None` if that is empty.
pub fn build_extended_title_from_wide(read: &[u16], version: &str) -> (title: Option<Vec<u16>>)
    ensures
        match title {
            Some(wide) => read@.len() > 0 && wide@ == read@ + title_suffix(version@),
            None => read@.len() == 0,
        },
{
    if read.len() == 0 {
        return None;
    }
    let mut wide: Vec<u16> = Vec::new();
    let mut i: usize = 0;
    while i < read.len()
        invariant
            i <= read@.len(),
            wide@ == read@.take(i as int),
        decreases read.len() - i,
    {
        wide.push(read[i]);
        i += 1;
        assert(wide@ =~= read@.take(i as int));
    }
    assert(wide@ =~= read@);
    append_suffix(&mut wide, version);
    Some(wide)
}

/// Fullscreen defaults to a bare window and windowed play to one without a caption.
pub proof fn lemma_default_frame(mode: DisplayMode)
    ensures
        default_frame(mode) == WindowFrame::Borderless <==> mode == DisplayMode::Fullscreen,
        default_frame(mode) == WindowFrame::Frameless <==> mode == DisplayMode::Windowed,
{
}

/// What is configured is kept and what is not comes from the game: its framebuffer and the
/// frame for its mode. One coordinate alone leaves the other at 0, and none leaves the
/// place to the system.
pub proof fn lemma_resolved(cfg: WindowCfg, framebuffer: (u32, u32), mode: DisplayMode)
    ensures
        ({
            let r = resolved(cfg, framebuffer, mode);
            &&& cfg.width is Some ==> r.width == cfg.width->0@
            &&& cfg.width is None ==> r.width == framebuffer.0
            &&& cfg.height is Some ==> r.height == cfg.height->0@
            &&& cfg.height is None ==> r.height == framebuffer.1
            &&& cfg.frame is Some ==> r.frame == cfg.frame->0
            &&& cfg.frame is None ==> r.frame == default_frame(mode)
            &&& r.always_on_top == cfg.always_on_top
            &&& r.position is None <==> cfg.x is None && cfg.y is None
            &&& cfg.x is Some ==> (r.position->0).0 == cfg.x->0
            &&& cfg.y is Some ==> (r.position->0).1 == cfg.y->0
            &&& cfg.x is None && cfg.y is Some ==> (r.position->0).0 == 0
            &&& cfg.x is Some && cfg.y is None ==> (r.position->0).1 == 0
        }),
{
}

/// The styles as the system counts them: all are visible; a frame is a caption with its
/// menu and both boxes, without a frame there is the menu and the boxes alone, and bare
/// windows have neither. Only a framed window is no popup.
pub proof fn lemma_style_values(frame: WindowFrame)
    ensures
        style_of(frame) == (match frame {
            WindowFrame::Framed => 0x10cb_0000u32,
            WindowFrame::Frameless => 0x900b_0000u32,
            WindowFrame::Borderless => 0x9000_0000u32,
        }),
{
    assert(0u32 | 0xc0_0000u32 | 0x8_0000u32 | 0x2_0000u32 | 0x1_0000u32 | 0x1000_0000u32
        == 0x10cb_0000u32 && 0x8000_0000u32 | 0x8_0000u32 | 0x2_0000u32 | 0x1_0000u32
        | 0x1000_0000u32 == 0x900b_0000u32 && 0x8000_0000u32 | 0x1000_0000u32 == 0x9000_0000u32)
        by (bit_vector);
}

/// A window that stays on top has that bit set, and otherwise nothing changes.
pub proof fn lemma_topmost(ex_style: u32, always_on_top: bool)
    ensures
        always_on_top ==> with_topmost(ex_style, always_on_top) == ex_style | 8,
        !always_on_top ==> with_topmost(ex_style, always_on_top) == ex_style,
        is_topmost(ex_style) <==> ex_style & 8 != 0,
{
}

/// A window that is not the main one is created as the game asks. The main one always gets
/// its band. Its place, size and style are ours only if it is restyled, which spares popups
/// and games that see to it themselves.
pub proof fn lemma_prepared(state: State, is_main: bool, requested: CreationArgs, adjusted: Rect)
    requires
        extents_fit(adjusted),
    ensures
        ({
            let args = prepared(state, is_main, requested, adjusted);
            let ours = is_main && state is Restyle && requested.style & 0x8000_0000 == 0;
            &&& !is_main ==> args == requested
            &&& is_main && !ours ==> {
                &&& args.x == requested.x && args.y == requested.y
                &&& args.width == requested.width && args.height == requested.height
                &&& args.style == requested.style
                &&& args.ex_style == with_topmost(requested.ex_style, state.on_top())
            }
            &&& ours ==> {
                &&& args.width == adjusted.right - adjusted.left
                &&& args.height == adjusted.bottom - adjusted.top
                &&& args.style == style_of(state->restyle.frame)
                &&& args.ex_style == with_topmost(0, state->restyle.always_on_top)
                &&& state->restyle.position is Some ==> args.x == (state->restyle.position->0).0
                    && args.y == (state->restyle.position->0).1
                &&& state->restyle.position is None ==> args.x == -0x8000_0000 && args.y
                    == -0x8000_0000
            }
        }),
        state.on_top() == (match state {
            State::Restyle { restyle } => restyle.always_on_top,
            State::DeferToGame { always_on_top } => always_on_top,
        }),
{
}

/// Carrying out a plan brings the window to what the policy wants, and changes nothing that
/// it has no say in: style bits outside of its own, other extended styles, and the place
/// where that is left to the system.
pub proof fn lemma_plan_reaches_policy(live: CreationArgs, args: CreationArgs)
    ensures
        ({
            let now = changes(live, args).applied(live);
            &&& now.width == args.width && now.height == args.height
            &&& args.x != -0x8000_0000 ==> now.x == args.x && now.y == args.y
            &&& args.x == -0x8000_0000 ==> now.x == live.x && now.y == live.y
            &&& now.style & 0x80cf_0000 == args.style & 0x80cf_0000
            &&& now.style & 0x7f30_ffff == live.style & 0x7f30_ffff
            &&& is_topmost(now.ex_style) == is_topmost(args.ex_style)
            &&& now.ex_style | 8 == live.ex_style | 8
        }),
{
    let (a, w, e) = (live.style, args.style, live.ex_style);
    assert(((a & !0x80cf_0000u32) | (w & 0x80cf_0000u32)) & 0x80cf_0000 == w & 0x80cf_0000 && ((a
        & !0x80cf_0000u32) | (w & 0x80cf_0000u32)) & 0x7f30_ffff == a & 0x7f30_ffff && (e | 8) | 8
        == e | 8 && (e & !8u32) | 8 == e | 8 && (e | 8) & 8 != 0 && (e & !8u32) & 8 == 0)
        by (bit_vector);
}

/// A plan names only what is not as it should be.
pub proof fn lemma_plan_is_minimal(live: CreationArgs, args: CreationArgs)
    ensures
        ({
            let plan = changes(live, args);
            &&& plan.style is Some ==> plan.style->0 != live.style
            &&& plan.band is Some ==> plan.band->0 != is_topmost(live.ex_style)
            &&& plan.position is Some ==> plan.position->0 != (live.x, live.y)
            &&& plan.size is Some ==> plan.size->0 != (live.width, live.height)
            &&& plan.is_empty() <==> plan.style is None && plan.band is None && plan.position
                is None && plan.size is None
        }),
{
}

/// A visible window is hidden while its style changes and keeps that bit for later. One
/// call then moves, sizes and raises it, each only if the plan says so, without activating
/// it, and has the frame drawn anew where the style changed.
pub proof fn lemma_policy_calls(plan: RestylePlan, live: CreationArgs)
    ensures
        ({
            let calls = calls_for(plan, live);
            let flags = calls.set_pos.flags;
            let hide = plan.style is Some && live.style & 0x1000_0000 != 0;
            &&& calls.hide is Some <==> hide
            &&& hide ==> calls.hide->0.flags == 0x97 && calls.hide->0.insert_after
                == InsertAfter::Unchanged
            &&& calls.style is Some <==> plan.style is Some
            &&& hide ==> calls.style->0 == plan.style->0 & 0xefff_ffff
            &&& plan.style is Some && !hide ==> calls.style == plan.style
            &&& flags & 0x10 != 0
            &&& flags & 0xffff_ffc8 == 0
            &&& flags & 0x20 != 0 <==> plan.style is Some
            &&& flags & 2 != 0 <==> plan.position is None
            &&& flags & 1 != 0 <==> plan.size is None
            &&& flags & 4 != 0 <==> plan.band is None
            &&& plan.position is Some ==> (calls.set_pos.x, calls.set_pos.y) == plan.position->0
            &&& plan.size is Some ==> (calls.set_pos.width, calls.set_pos.height) == plan.size->0
            &&& plan.band is Some ==> calls.set_pos.insert_after == (if plan.band->0 {
                InsertAfter::Topmost
            } else {
                InsertAfter::NotTopmost
            })
        }),
{
    let a: u32 = if plan.style is Some {
        0x20
    } else {
        0
    };
    let b: u32 = if plan.position is None {
        2
    } else {
        0
    };
    let c: u32 = if plan.size is None {
        1
    } else {
        0
    };
    let d: u32 = if plan.band is None {
        4
    } else {
        0
    };
    let flags = 0x10u32 | a | b | c | d;
    assert(calls_for(plan, live).set_pos.flags == flags);
    assert(flags & 0x10 != 0 && flags & 0xffff_ffc8 == 0 && flags & 0x20 == a && flags & 2 == b
        && flags & 1 == c && flags & 4 == d && 1u32 | 2u32 | 4u32 | 0x10u32 | 0x80u32 == 0x97
        && !0x1000_0000u32 == 0xefff_ffff) by (bit_vector)
        requires
            flags == 0x10u32 | a | b | c | d,
            a == 0x20 || a == 0,
            b == 2 || b == 0,
            c == 1 || c == 0,
            d == 4 || d == 0,
    ;
}

/// A live window is described by its corners and its style bits.
pub proof fn lemma_live(rc: Rect, style: i32, ex_style: i32)
    requires
        extents_fit(rc),
    ensures
        live_of(rc, style, ex_style).x == rc.left,
        live_of(rc, style, ex_style).y == rc.top,
        live_of(rc, style, ex_style).x + live_of(rc, style, ex_style).width == rc.right,
        live_of(rc, style, ex_style).y + live_of(rc, style, ex_style).height == rc.bottom,
        bytes::as_signed(live_of(rc, style, ex_style).style) == style,
        bytes::as_signed(live_of(rc, style, ex_style).ex_style) == ex_style,
{
}

/// A window is shown in place, and activated only if it was neither visible nor hidden by
/// us; without a window nothing is called.
pub proof fn lemma_show_call(window: DeviceWindow, visible: bool)
    ensures
        window.hwnd == 0 ==> window.show_call(visible) is None,
        window.hwnd != 0 ==> {
            let call = window.show_call(visible);
            &&& call is Some
            &&& call->0.insert_after == InsertAfter::Unchanged
            &&& window.hidden_for_restyle || visible ==> call->0.flags == 0x57
            &&& !window.hidden_for_restyle && !visible ==> call->0.flags == 0x47
        },
{
    assert(1u32 | 2u32 | 4u32 | 0x40u32 | 0x10u32 == 0x57 && 1u32 | 2u32 | 4u32 | 0x40u32 | 0u32
        == 0x47) by (bit_vector);
}

/// The suffix of a title is the name and version behind a plus sign, terminated.
pub proof fn lemma_title_suffix(version: Seq<char>)
    ensures
        title_suffix(version).len() > 0,
        title_suffix(version).last() == 0,
        title_suffix(version).drop_last() == text::utf16(" + neopatch v"@ + version),
{
    text::lemma_utf16_concat(" + neopatch v"@, version);
    assert(title_suffix(version).drop_last() =~= text::utf16(" + neopatch v"@ + version));
}

/// A live window is changed to what a creation under the policy would have made of it, and
/// is left alone when it is that already.
pub proof fn lemma_restyle_plan(state: State, live: CreationArgs, adjusted: Rect)
    ensures
        ({
            let wanted = prepared(state, true, live, adjusted);
            let plan = plan_for(state, live, adjusted);
            &&& plan is Some ==> plan->0 == changes(live, wanted)
            &&& plan is None <==> changes(live, wanted).style is None && changes(
                live,
                wanted,
            ).position is None && changes(live, wanted).size is None && changes(live, wanted).band
                is None
        }),
{
}

/// A call made for its flags alone has nothing else in it.
pub proof fn lemma_flags_only(flags: u32)
    ensures
        flags_only(flags).flags == flags,
        flags_only(flags).insert_after == InsertAfter::Unchanged,
        flags_only(flags).x == 0 && flags_only(flags).y == 0,
        flags_only(flags).width == 0 && flags_only(flags).height == 0,
        flag_if(true, flags) == flags,
        flag_if(false, flags) == 0,
{
}

/// The styles, the flags and the room for a title.
pub proof fn lemma_window_codes()
    ensures
        WS_OVERLAPPED == 0,
        WS_CHILD == 0x4000_0000,
        WS_SYSMENU == 0x0008_0000,
        WS_THICKFRAME == 0x0004_0000,
        WS_MINIMIZEBOX == 0x0002_0000,
        WS_MAXIMIZEBOX == 0x0001_0000,
        WS_OVERLAPPEDWINDOW == 0x00cf_0000,
        WS_EX_TOPMOST == 0x8,
        CW_USEDEFAULT == -0x8000_0000,
        SWP_NOSIZE == 0x1,
        SWP_NOMOVE == 0x2,
        SWP_NOZORDER == 0x4,
        SWP_NOACTIVATE == 0x10,
        SWP_FRAMECHANGED == 0x20,
        SWP_SHOWWINDOW == 0x40,
        SWP_HIDEWINDOW == 0x80,
        TITLE_READ_LEN == 512,
{
}

/// What a plan leaves alone is not in its call either.
pub proof fn lemma_calls_leave_alone(plan: RestylePlan, live: CreationArgs)
    ensures
        ({
            let call = calls_for(plan, live).set_pos;
            &&& plan.position is None ==> call.x == 0 && call.y == 0
            &&& plan.size is None ==> call.width == 0 && call.height == 0
            &&& plan.band is None ==> call.insert_after == InsertAfter::Unchanged
        }),
{
}

} // verus!
