//! Rewriting of Direct3D 9 device requests.
//!
//! `Present` must never block on vblank, so the presentation interval is forced to
//! immediate wherever the pacer controls timing. D3D9Ex has no managed pool, refuses
//! `A8R8G8B8` in fullscreen, and wants a full display mode beside the parameters of
//! a fullscreen device. The games know nothing of this: every request of theirs is
//! rewritten into attempts, and a failed sequence of attempts gives them their own
//! request back.

use vstd::prelude::*;
use crate::d3d::{
    is_ok, DisplayModeEx, Format, HResult, PresentParameters, D3DCREATE_MULTITHREADED,
    D3DDISPLAYMODEEX_SIZE, D3DERR_DEVICEHUNG, D3DERR_DEVICELOST, D3DERR_DEVICEREMOVED,
    D3DERR_INVALIDCALL, D3DERR_OUTOFVIDEOMEMORY, D3DFMT_A1R5G5B5, D3DFMT_A8R8G8B8, D3DFMT_R5G6B5,
    D3DFMT_UNKNOWN, D3DFMT_X1R5G5B5, D3DFMT_X8R8G8B8, D3DPOOL_DEFAULT, D3DPOOL_MANAGED,
    D3DPRESENTFLAG_LOCKABLE_BACKBUFFER, D3DPRESENT_INTERVAL_IMMEDIATE,
    D3DSCANLINEORDERING_PROGRESSIVE, D3DUSAGE_DYNAMIC,
};
use crate::rates::{
    is_real_refresh_rate, normalize_reported_rate, select_refresh_rate, RefreshRateMode,
};
use crate::{d3d, rates};

verus! {

/// Present-parameter policy for the devices created from one `IDirect3D9Ex` object.
#[derive(Clone, Copy, Debug, PartialEq, Eq, Structural)]
pub struct PresentPolicy {
    /// Keep `D3DPRESENTFLAG_LOCKABLE_BACKBUFFER` instead of stripping it.
    pub keep_lockable_back_buffer: bool,
    /// Substitute a 32-bit back buffer for a 16-bit request up front, rather than
    /// only after the device refuses one.
    pub upgrade_16bit_back_buffer: bool,
}

/// The policy that every device created through direct D3D9 gets.
pub open spec fn direct_policy() -> PresentPolicy {
    PresentPolicy { keep_lockable_back_buffer: false, upgrade_16bit_back_buffer: false }
}

/// The policy recorded for the current session.
pub struct SessionPolicy {
    recorded: Option<PresentPolicy>,
}

impl View for SessionPolicy {
    type V = Option<PresentPolicy>;

    closed spec fn view(&self) -> Option<PresentPolicy> {
        self.recorded
    }
}

impl SessionPolicy {
    pub fn new() -> (res: SessionPolicy)
        ensures
            res@ == None::<PresentPolicy>,
    {
        SessionPolicy { recorded: None }
    }

    /// Records `policy`. Returns whether it replaces a different one, which no
    /// supported game causes.
    pub fn record(&mut self, policy: PresentPolicy) -> (replaced: bool)
        ensures
            final(self)@ == Some(policy),
            replaced == (old(self)@ is Some && old(self)@->0 != policy),
    {
        let replaced = match self.recorded {
            Some(prev) => prev != policy,
            None => false,
        };
        self.recorded = Some(policy);
        replaced
    }

    /// The recorded policy, or the direct one before any is recorded.
    pub fn get(&self) -> (policy: PresentPolicy)
        ensures
            policy == match self@ {
                Some(p) => p,
                None => direct_policy(),
            },
    {
        match self.recorded {
            Some(p) => p,
            None => PresentPolicy {
                keep_lockable_back_buffer: false,
                upgrade_16bit_back_buffer: false,
            },
        }
    }
}

/// The 32-bit substitute for a 16-bit back buffer format.
pub open spec fn upgrade_of(f: Format) -> Option<Format> {
    if f == D3DFMT_R5G6B5 || f == D3DFMT_X1R5G5B5 {
        Some(D3DFMT_X8R8G8B8)
    } else if f == D3DFMT_A1R5G5B5 {
        Some(D3DFMT_A8R8G8B8)
    } else {
        None
    }
}

/// The 32-bit substitute for a 16-bit back buffer format, or `None` for a format
/// that doesn't need substitution.
pub fn upgraded_back_buffer_format(f: Format) -> (res: Option<Format>)
    ensures
        res == upgrade_of(f),
{
    match f {
        D3DFMT_R5G6B5 | D3DFMT_X1R5G5B5 => Some(D3DFMT_X8R8G8B8),
        D3DFMT_A1R5G5B5 => Some(D3DFMT_A8R8G8B8),
        _ => None,
    }
}

/// The back-buffer-format decision for one attempt.
#[derive(Clone, Copy, Debug, PartialEq, Eq, Structural)]
pub struct FormatPlan {
    pub format: Format,
    /// The format after the 16-bit upgrade, when that rule fired.
    pub upgraded: Option<Format>,
    /// Whether the fullscreen scanout substitution fired: `A8R8G8B8` isn't
    /// scanout-compatible, so fullscreen takes `X8R8G8B8` instead.
    pub scanout_substituted: bool,
}

/// The format after the optional 16-bit upgrade.
pub open spec fn after_upgrade(requested: Format, upgrade: bool) -> Format {
    if upgrade && upgrade_of(requested) is Some {
        upgrade_of(requested)->0
    } else {
        requested
    }
}

/// The back buffer format of an attempt.
pub open spec fn planned_format(requested: Format, windowed: bool, upgrade: bool) -> Format {
    if !windowed && after_upgrade(requested, upgrade) == D3DFMT_A8R8G8B8 {
        D3DFMT_X8R8G8B8
    } else {
        after_upgrade(requested, upgrade)
    }
}

/// Decides the back buffer format of one attempt.
pub fn format_plan(requested: Format, windowed: bool, upgrade: bool) -> (plan: FormatPlan)
    ensures
        plan.format == planned_format(requested, windowed, upgrade),
        plan.upgraded == if upgrade {
            upgrade_of(requested)
        } else {
            None
        },
        plan.scanout_substituted == (!windowed && after_upgrade(requested, upgrade)
            == D3DFMT_A8R8G8B8),
{
    let mut format: Format = requested;
    let mut upgraded: Option<Format> = None;
    if upgrade {
        if let Some(up) = upgraded_back_buffer_format(format) {
            format = up;
            upgraded = Some(up);
        }
    }
    let scanout_substituted = !windowed && format == D3DFMT_A8R8G8B8;
    if scanout_substituted {
        format = D3DFMT_X8R8G8B8;
    }
    FormatPlan { format, upgraded, scanout_substituted }
}

/// A fullscreen attempt never asks for `A8R8G8B8`, and an upgraded one never for a
/// 16-bit format.
pub proof fn lemma_planned_format(requested: Format, windowed: bool, upgrade: bool)
    ensures
        !windowed ==> planned_format(requested, windowed, upgrade) != D3DFMT_A8R8G8B8,
        upgrade ==> upgrade_of(planned_format(requested, windowed, upgrade)) is None,
        planned_format(
            planned_format(requested, windowed, upgrade),
            windowed,
            upgrade,
        ) == planned_format(requested, windowed, upgrade),
{
}

/// The parameters after the policy rewrite.
pub open spec fn rewritten(
    pp: PresentParameters,
    policy: PresentPolicy,
    controls_timing: bool,
) -> PresentParameters {
    PresentParameters {
        flags: if policy.keep_lockable_back_buffer {
            pp.flags
        } else {
            pp.flags & !D3DPRESENTFLAG_LOCKABLE_BACKBUFFER
        },
        presentation_interval: if controls_timing {
            D3DPRESENT_INTERVAL_IMMEDIATE
        } else {
            pp.presentation_interval
        },
        back_buffer_format: planned_format(
            pp.back_buffer_format,
            pp.windowed != 0,
            policy.upgrade_16bit_back_buffer,
        ),
        ..pp
    }
}

/// Applies the policy rewrite: only the lockable flag, the presentation interval
/// and the back buffer format are ever touched.
pub fn rewrite_present_params_impl(
    pp: &mut PresentParameters,
    policy: PresentPolicy,
    controls_timing: bool,
)
    ensures
        *final(pp) == rewritten(*old(pp), policy, controls_timing),
{
    if !policy.keep_lockable_back_buffer {
        pp.flags = pp.flags & !D3DPRESENTFLAG_LOCKABLE_BACKBUFFER;
    }
    if controls_timing {
        pp.presentation_interval = D3DPRESENT_INTERVAL_IMMEDIATE;
    }
    let plan = format_plan(
        pp.back_buffer_format,
        pp.windowed != 0,
        policy.upgrade_16bit_back_buffer,
    );
    pp.back_buffer_format = plan.format;
}

/// Rewriting twice changes nothing more.
pub proof fn lemma_rewrite_idempotent(
    pp: PresentParameters,
    policy: PresentPolicy,
    controls_timing: bool,
)
    ensures
        rewritten(rewritten(pp, policy, controls_timing), policy, controls_timing) == rewritten(
            pp,
            policy,
            controls_timing,
        ),
        !policy.keep_lockable_back_buffer ==> rewritten(pp, policy, controls_timing).flags
            & D3DPRESENTFLAG_LOCKABLE_BACKBUFFER == 0,
{
    let f = pp.flags;
    assert(f & !1u32 & !1u32 == f & !1u32) by (bit_vector);
    assert(f & !1u32 & 1u32 == 0) by (bit_vector);
}

/// The optional overrides active for one device creation/reset attempt.
#[derive(Clone, Copy, Debug, PartialEq, Eq, Structural)]
pub struct FixSet {
    /// Pick the fullscreen refresh rate instead of resolving the game's own request.
    pub rate_override: bool,
    /// Substitute a 32-bit back buffer for a 16-bit request.
    pub format_upgrade: bool,
}

/// One round of attempts.
#[derive(Clone, Copy, Debug, PartialEq, Eq, Structural)]
pub struct Round {
    /// The primary attempt.
    pub primary: FixSet,
    /// The primary attempt without the refresh-rate override, tried when the primary
    /// attempt fails due to a non-transient error.
    pub rollback: FixSet,
}

/// The round with or without the format upgrade.
pub open spec fn round_of(format_upgrade: bool) -> Round {
    Round {
        primary: FixSet { rate_override: true, format_upgrade },
        rollback: FixSet { rate_override: false, format_upgrade },
    }
}

/// Whether a second round with the format upgrade follows.
pub open spec fn escalates(policy_upgrade: bool, escalatable: bool) -> bool {
    !policy_upgrade && escalatable
}

fn make_round(format_upgrade: bool) -> (round: Round)
    ensures
        round == round_of(format_upgrade),
{
    Round {
        primary: FixSet { rate_override: true, format_upgrade },
        rollback: FixSet { rate_override: false, format_upgrade },
    }
}

/// The rounds of attempts: a 16-bit request that the policy leaves alone is
/// escalated to 32 bits in a second round.
pub fn plan_attempts(policy_upgrade: bool, escalatable: bool) -> (rounds: [Option<Round>; 2])
    ensures
        rounds@[0] == Some(
            round_of(
                if escalates(policy_upgrade, escalatable) {
                    false
                } else {
                    policy_upgrade
                },
            ),
        ),
        rounds@[1] == if escalates(policy_upgrade, escalatable) {
            Some(round_of(true))
        } else {
            None
        },
{
    if !policy_upgrade && escalatable {
        [Some(make_round(false)), Some(make_round(true))]
    } else {
        [Some(make_round(policy_upgrade)), None]
    }
}

/// The distinct refresh rates advertised in one back buffer format.
#[derive(Debug)]
pub struct RateTable {
    pub format: Format,
    pub rates: Vec<u32>,
}

/// Adapter information used by [`materialize`].
#[derive(Debug)]
pub struct AdapterSnapshot {
    /// The adapter's mode when sampling succeeded.
    pub desktop_mode: Option<DisplayModeEx>,
    /// The desktop refresh rate, resolved down to 60 Hz.
    pub desktop_rate: u32,
    /// Supported rates per candidate back buffer format: the escalated attempts use
    /// another format than the primary ones, and the two can advertise different
    /// mode sets.
    pub tables: Vec<RateTable>,
}

/// The rates of the first table for `format`; none for a format without a table.
pub open spec fn rates_in(tables: Seq<RateTable>, format: Format) -> Seq<u32>
    decreases tables.len(),
{
    if tables.len() == 0 {
        seq![]
    } else if tables[0].format == format {
        tables[0].rates@
    } else {
        rates_in(tables.drop_first(), format)
    }
}

impl AdapterSnapshot {
    /// Nothing is known of the adapter.
    pub open spec fn is_empty(self) -> bool {
        &&& self.desktop_mode is None
        &&& self.desktop_rate == 60
        &&& self.tables@.len() == 0
    }

    /// A snapshot of an adapter that was not sampled.
    pub fn empty() -> (snap: AdapterSnapshot)
        ensures
            snap.is_empty(),
    {
        AdapterSnapshot { desktop_mode: None, desktop_rate: 60, tables: Vec::new() }
    }

    /// Returns the supported rates recorded for `format`, or none for a format that
    /// wasn't sampled.
    pub fn rates_for(&self, format: Format) -> (rates: &[u32])
        ensures
            rates@ == rates_in(self.tables@, format),
    {
        let mut i: usize = 0;
        assert(self.tables@.skip(0) =~= self.tables@);
        while i < self.tables.len()
            invariant
                i <= self.tables.len(),
                rates_in(self.tables@, format) == rates_in(self.tables@.skip(i as int), format),
            decreases self.tables.len() - i,
        {
            let ghost rest = self.tables@.skip(i as int);
            assert(rest[0] == self.tables@[i as int]);
            if self.tables[i].format == format {
                return self.tables[i].rates.as_slice();
            }
            assert(rest.drop_first() =~= self.tables@.skip(i + 1));
            i += 1;
        }
        &[]
    }
}

/// The rate that a Win32 query for the current display settings gives: none where the
/// query failed or reports no real rate.
pub fn win32_current_refresh_rate(ok: bool, hz: u32) -> (res: Option<u32>)
    ensures
        res == if ok && rates::real_rate(hz) {
            Some(hz)
        } else {
            None
        },
{
    if ok && is_real_refresh_rate(hz) {
        Some(hz)
    } else {
        None
    }
}

/// What sampling an adapter gave.
#[derive(Debug)]
pub struct AdapterSamples {
    /// The adapter's display mode, when the query succeeded.
    pub desktop_mode: Option<DisplayModeEx>,
    /// The rate of the Win32 fallback query, when it was made and gave a real one.
    pub win32_rate: Option<u32>,
    /// The rates advertised in [`CaptureQuery::first`].
    pub first_rates: Vec<u32>,
    /// The rates advertised in [`CaptureQuery::escalated`].
    pub escalated_rates: Vec<u32>,
}

/// What is to be sampled for a fullscreen request.
#[derive(Clone, Copy, Debug, PartialEq, Eq, Structural)]
pub struct CaptureQuery {
    pub width: u32,
    pub height: u32,
    /// The back buffer format of the primary attempts.
    pub first: Format,
    /// The back buffer format of the escalated attempts, where it is another one.
    pub escalated: Option<Format>,
    /// Whether a rate pick can occur, and with it a use of the resolved desktop rate.
    pub will_pick: bool,
}

/// The query for `req`; a windowed request needs none.
pub open spec fn query_of(
    req: PresentParameters,
    policy: PresentPolicy,
    controls_timing: bool,
) -> CaptureQuery {
    let first = planned_format(req.back_buffer_format, false, policy.upgrade_16bit_back_buffer);
    let escalated = planned_format(req.back_buffer_format, false, true);
    CaptureQuery {
        width: req.back_buffer_width,
        height: req.back_buffer_height,
        first,
        escalated: if !policy.upgrade_16bit_back_buffer && escalated != first {
            Some(escalated)
        } else {
            None
        },
        will_pick: controls_timing || !rates::real_rate(req.refresh_rate),
    }
}

/// The desktop rate that picks consult: 60 Hz where no pick can occur, else the
/// sampled rate, else the Win32 rate, else 60 Hz.
pub open spec fn resolved_desktop_rate(
    will_pick: bool,
    desktop_mode: Option<DisplayModeEx>,
    win32_rate: Option<u32>,
) -> u32 {
    if !will_pick {
        60
    } else if desktop_mode is Some && rates::real_rate(desktop_mode->0.refresh_rate) {
        desktop_mode->0.refresh_rate
    } else if win32_rate is Some {
        win32_rate->0
    } else {
        60
    }
}

impl CaptureQuery {
    /// Decides what to sample for `requested`; `None` for a windowed or absent request.
    pub fn new(
        requested: Option<&PresentParameters>,
        policy: PresentPolicy,
        controls_timing: bool,
    ) -> (query: Option<CaptureQuery>)
        ensures
            query == match requested {
                Some(req) => if req.windowed != 0 {
                    None
                } else {
                    Some(query_of(*req, policy, controls_timing))
                },
                None => None,
            },
    {
        let req = match requested {
            Some(req) => req,
            None => {
                return None;
            },
        };
        if req.windowed != 0 {
            return None;
        }
        let first = format_plan(req.back_buffer_format, false, policy.upgrade_16bit_back_buffer);
        let mut escalated: Option<Format> = None;
        if !policy.upgrade_16bit_back_buffer {
            let plan = format_plan(req.back_buffer_format, false, true);
            if plan.format != first.format {
                escalated = Some(plan.format);
            }
        }
        Some(
            CaptureQuery {
                width: req.back_buffer_width,
                height: req.back_buffer_height,
                first: first.format,
                escalated,
                will_pick: controls_timing || !is_real_refresh_rate(req.refresh_rate),
            },
        )
    }

    /// Returns whether the Win32 fallback query is needed after `desktop_mode` was
    /// sampled.
    pub fn wants_win32_rate(&self, desktop_mode: Option<DisplayModeEx>) -> (res: bool)
        ensures
            res == (self.will_pick && !(desktop_mode is Some && rates::real_rate(
                desktop_mode->0.refresh_rate,
            ))),
    {
        let reported_real = match desktop_mode {
            Some(m) => is_real_refresh_rate(m.refresh_rate),
            None => false,
        };
        self.will_pick && !reported_real
    }
}

impl AdapterSnapshot {
    /// The snapshot of a fullscreen `requested`, from what sampling for its
    /// [`CaptureQuery`] gave. Empty for windowed or absent requests.
    pub fn capture(
        requested: Option<&PresentParameters>,
        policy: PresentPolicy,
        controls_timing: bool,
        samples: AdapterSamples,
    ) -> (snap: AdapterSnapshot)
        ensures
            requested is None || requested->0.windowed != 0 ==> snap.is_empty(),
            requested is Some && requested->0.windowed == 0 ==> {
                let query = query_of(*requested->0, policy, controls_timing);
                &&& snap.desktop_mode == samples.desktop_mode
                &&& snap.desktop_rate == resolved_desktop_rate(
                    query.will_pick,
                    samples.desktop_mode,
                    samples.win32_rate,
                )
                &&& snap.tables@ == match query.escalated {
                    Some(format) => seq![
                        RateTable { format: query.first, rates: samples.first_rates },
                        RateTable { format, rates: samples.escalated_rates },
                    ],
                    None => seq![RateTable { format: query.first, rates: samples.first_rates }],
                }
            },
    {
        let query = match CaptureQuery::new(requested, policy, controls_timing) {
            Some(query) => query,
            None => {
                return AdapterSnapshot::empty();
            },
        };
        let desktop_rate: u32 = if !query.will_pick {
            60
        } else {
            match (samples.desktop_mode, samples.win32_rate) {
                (Some(m), _) if is_real_refresh_rate(m.refresh_rate) => m.refresh_rate,
                (_, Some(hz)) => hz,
                _ => 60,
            }
        };
        let mut tables: Vec<RateTable> = Vec::new();
        tables.push(RateTable { format: query.first, rates: samples.first_rates });
        if let Some(format) = query.escalated {
            tables.push(RateTable { format, rates: samples.escalated_rates });
        }
        AdapterSnapshot { desktop_mode: samples.desktop_mode, desktop_rate, tables }
    }
}

/// Every format that an attempt for a fullscreen `req` can materialize with has the
/// rates that were sampled for it.
pub proof fn lemma_capture_covers_attempts(
    req: PresentParameters,
    policy: PresentPolicy,
    controls_timing: bool,
    tables: Seq<RateTable>,
    first_rates: Vec<u32>,
    escalated_rates: Vec<u32>,
)
    requires
        req.windowed == 0,
        tables == match query_of(req, policy, controls_timing).escalated {
            Some(format) => seq![
                RateTable {
                    format: query_of(req, policy, controls_timing).first,
                    rates: first_rates,
                },
                RateTable { format, rates: escalated_rates },
            ],
            None => seq![
                RateTable {
                    format: query_of(req, policy, controls_timing).first,
                    rates: first_rates,
                },
            ],
        },
    ensures
        rates_in(
            tables,
            planned_format(req.back_buffer_format, false, policy.upgrade_16bit_back_buffer),
        ) == first_rates@,
        escalates(policy.upgrade_16bit_back_buffer, upgrade_of(req.back_buffer_format) is Some)
            ==> rates_in(tables, planned_format(req.back_buffer_format, false, true))
            == escalated_rates@,
{
    assert(tables.len() == 2 ==> tables.drop_first()[0] == tables[1]);
    reveal_with_fuel(rates_in, 3);
}

/// Per-call configuration for one create/reset attempt sequence.
#[derive(Debug)]
pub struct LadderCtx {
    pub snapshot: AdapterSnapshot,
    pub policy: PresentPolicy,
    /// Whether the pacer controls frame timing. This also gates the rate override,
    /// which is meaningless when the game is left synced to vblank.
    pub controls_timing: bool,
    pub refresh_mode: RefreshRateMode,
    /// Whether the attempt runner will actually pass the display mode.
    pub consumes_display_mode: bool,
}

/// One fully-materialized device creation/reset attempt.
#[derive(Clone, Copy, Debug, PartialEq, Eq, Structural)]
pub struct Attempt {
    pub pp: PresentParameters,
    /// Populated for exclusive fullscreen; `None` for windowed.
    pub mode: Option<DisplayModeEx>,
}

/// The display mode that goes with fullscreen parameters.
pub open spec fn display_mode_of(pp: PresentParameters) -> DisplayModeEx {
    DisplayModeEx {
        size: D3DDISPLAYMODEEX_SIZE,
        width: pp.back_buffer_width,
        height: pp.back_buffer_height,
        refresh_rate: pp.refresh_rate,
        format: pp.back_buffer_format,
        scan_line_ordering: D3DSCANLINEORDERING_PROGRESSIVE,
    }
}

/// Derives the display mode from the present parameters. The Ex calls require a
/// fully-filled mode for exclusive fullscreen and none for windowed.
pub fn build_display_mode_ex(pp: &PresentParameters) -> (mode: DisplayModeEx)
    ensures
        mode == display_mode_of(*pp),
{
    DisplayModeEx {
        size: D3DDISPLAYMODEEX_SIZE,
        width: pp.back_buffer_width,
        height: pp.back_buffer_height,
        refresh_rate: pp.refresh_rate,
        format: pp.back_buffer_format,
        scan_line_ordering: D3DSCANLINEORDERING_PROGRESSIVE,
    }
}

/// The rate of a fullscreen attempt with the override: the configured pick where
/// the pacer controls timing, else the game's own; what is then no real rate
/// becomes the native pick.
pub open spec fn overridden_rate(requested: u32, supported: Seq<u32>, ctx: LadderCtx) -> u32 {
    let chosen = if ctx.controls_timing {
        rates::selected_rate(ctx.refresh_mode, supported, ctx.snapshot.desktop_rate)
    } else {
        requested
    };
    if rates::real_rate(chosen) {
        chosen
    } else {
        rates::selected_rate(RefreshRateMode::Native, supported, ctx.snapshot.desktop_rate)
    }
}

/// The rate of a fullscreen rollback: the game's own, where it is real or where the
/// display mode is not passed; else the sampled desktop rate, or 60 Hz.
pub open spec fn rollback_rate(requested: u32, ctx: LadderCtx) -> u32 {
    if rates::real_rate(requested) || !ctx.consumes_display_mode {
        requested
    } else if ctx.snapshot.desktop_mode is Some && rates::real_rate(
        ctx.snapshot.desktop_mode->0.refresh_rate,
    ) {
        ctx.snapshot.desktop_mode->0.refresh_rate
    } else {
        60
    }
}

/// The parameters of the attempt for `fixes`.
pub open spec fn attempt_params(
    requested: PresentParameters,
    fixes: FixSet,
    ctx: LadderCtx,
) -> PresentParameters {
    let pp = rewritten(
        requested,
        PresentPolicy {
            keep_lockable_back_buffer: ctx.policy.keep_lockable_back_buffer,
            upgrade_16bit_back_buffer: fixes.format_upgrade,
        },
        ctx.controls_timing,
    );
    if requested.windowed != 0 {
        pp
    } else if fixes.rate_override {
        PresentParameters {
            refresh_rate: overridden_rate(
                requested.refresh_rate,
                rates_in(ctx.snapshot.tables@, pp.back_buffer_format),
                ctx,
            ),
            ..pp
        }
    } else {
        PresentParameters { refresh_rate: rollback_rate(requested.refresh_rate, ctx), ..pp }
    }
}

/// The attempt for `fixes`.
pub open spec fn attempt_of(
    requested: PresentParameters,
    fixes: FixSet,
    ctx: LadderCtx,
) -> Attempt {
    let pp = attempt_params(requested, fixes, ctx);
    Attempt {
        pp,
        mode: if requested.windowed != 0 {
            None
        } else {
            Some(display_mode_of(pp))
        },
    }
}

/// Builds the complete attempt for `fixes` from the game's `requested` parameters.
pub fn materialize(requested: &PresentParameters, fixes: FixSet, ctx: &LadderCtx) -> (attempt:
    Attempt)
    ensures
        attempt == attempt_of(*requested, fixes, *ctx),
{
    let mut pp: PresentParameters = *requested;
    rewrite_present_params_impl(
        &mut pp,
        PresentPolicy {
            keep_lockable_back_buffer: ctx.policy.keep_lockable_back_buffer,
            upgrade_16bit_back_buffer: fixes.format_upgrade,
        },
        ctx.controls_timing,
    );
    if pp.windowed != 0 {
        return Attempt { pp, mode: None };
    }
    if fixes.rate_override {
        let supported = ctx.snapshot.rates_for(pp.back_buffer_format);
        if ctx.controls_timing {
            pp.refresh_rate = select_refresh_rate(
                ctx.refresh_mode,
                supported,
                ctx.snapshot.desktop_rate,
            );
        }
        if !is_real_refresh_rate(pp.refresh_rate) {
            pp.refresh_rate = select_refresh_rate(
                RefreshRateMode::Native,
                supported,
                ctx.snapshot.desktop_rate,
            );
        }
    } else {
        // The pick has just been rejected, and deriving it again would fail the same way.
        let original: u32 = requested.refresh_rate;
        if !is_real_refresh_rate(original) && ctx.consumes_display_mode {
            pp.refresh_rate = match ctx.snapshot.desktop_mode {
                Some(m) if is_real_refresh_rate(m.refresh_rate) => m.refresh_rate,
                _ => 60,
            };
        }
    }
    let mode = build_display_mode_ex(&pp);
    Attempt { pp, mode: Some(mode) }
}

/// An attempt carries a display mode exactly when it is fullscreen, the mode agrees
/// with its parameters, and nothing is touched but the lockable flag, the interval,
/// the format and the rate; a windowed attempt keeps the rate too.
pub proof fn lemma_attempt_agrees(requested: PresentParameters, fixes: FixSet, ctx: LadderCtx)
    ensures
        ({
            let attempt = attempt_of(requested, fixes, ctx);
            &&& attempt.mode is Some <==> attempt.pp.windowed == 0
            &&& attempt.mode is Some ==> attempt.mode->0 == display_mode_of(attempt.pp)
            &&& attempt.pp == (PresentParameters {
                flags: attempt.pp.flags,
                presentation_interval: attempt.pp.presentation_interval,
                back_buffer_format: attempt.pp.back_buffer_format,
                refresh_rate: attempt.pp.refresh_rate,
                ..requested
            })
            &&& requested.windowed != 0 ==> attempt.pp.refresh_rate == requested.refresh_rate
        }),
{
}

/// Whether `hr` is an error that another attempt cannot cure.
pub open spec fn transient(hr: HResult) -> bool {
    hr == D3DERR_DEVICELOST || hr == D3DERR_DEVICEREMOVED || hr == D3DERR_DEVICEHUNG || hr
        == D3DERR_OUTOFVIDEOMEMORY
}

/// Returns whether `hr` reports a lost, removed or hung device, or exhausted memory.
pub fn is_transient_device_error(hr: HResult) -> (res: bool)
    ensures
        res == transient(hr),
{
    matches!(
        hr,
        D3DERR_DEVICELOST | D3DERR_DEVICEREMOVED | D3DERR_DEVICEHUNG | D3DERR_OUTOFVIDEOMEMORY
    )
}

/// The pool and usage that a request becomes: D3D9Ex has no managed pool, and the
/// closest valid pair is a dynamic resource in the default pool.
pub open spec fn translated_pool(pool: u32, usage: u32) -> (u32, u32) {
    if pool == D3DPOOL_MANAGED {
        (D3DPOOL_DEFAULT, usage | D3DUSAGE_DYNAMIC)
    } else {
        (pool, usage)
    }
}

/// Replaces a managed-pool request by its closest valid pair. Returns whether a
/// translation happened.
pub fn translate_managed_pool(pool: &mut u32, usage: &mut u32) -> (translated: bool)
    ensures
        (*final(pool), *final(usage)) == translated_pool(*old(pool), *old(usage)),
        translated == (*old(pool) == D3DPOOL_MANAGED),
{
    if *pool == D3DPOOL_MANAGED {
        *pool = D3DPOOL_DEFAULT;
        *usage = *usage | D3DUSAGE_DYNAMIC;
        true
    } else {
        false
    }
}

/// No request is left in the managed pool, no usage bit is lost, and translating
/// again changes nothing.
pub proof fn lemma_pool_translation(pool: u32, usage: u32)
    ensures
        translated_pool(pool, usage).0 != D3DPOOL_MANAGED,
        translated_pool(pool, usage).1 & usage == usage,
        translated_pool(translated_pool(pool, usage).0, translated_pool(pool, usage).1)
            == translated_pool(pool, usage),
{
    assert((usage | 512) & usage == usage) by (bit_vector);
    assert(usage & usage == usage) by (bit_vector);
}

/// The pool and usage handed on by a `CreateTexture` or `CreateVertexBuffer` hook:
/// only the game's device is translated, for a foreign one may be plain D3D9.
pub fn resource_request(game_device: bool, pool: u32, usage: u32) -> (res: (u32, u32))
    ensures
        res == if game_device {
            translated_pool(pool, usage)
        } else {
            (pool, usage)
        },
{
    let mut pool_out: u32 = pool;
    let mut usage_out: u32 = usage;
    if game_device {
        translate_managed_pool(&mut pool_out, &mut usage_out);
    }
    (pool_out, usage_out)
}

/// Adds `D3DCREATE_MULTITHREADED`: the games use D3D9 from worker threads without
/// asking for a thread-safe device.
pub fn rewrite_behavior_flags(flags: u32) -> (res: u32)
    ensures
        res == flags | D3DCREATE_MULTITHREADED,
{
    flags | D3DCREATE_MULTITHREADED
}

/// The multithreaded flag is set, every other flag is as before, and adding the flag
/// again changes nothing.
pub proof fn lemma_behavior_flags(flags: u32)
    ensures
        ({
            let res = flags | D3DCREATE_MULTITHREADED;
            &&& res & D3DCREATE_MULTITHREADED == D3DCREATE_MULTITHREADED
            &&& res & !D3DCREATE_MULTITHREADED == flags & !D3DCREATE_MULTITHREADED
            &&& res | D3DCREATE_MULTITHREADED == res
        }),
{
    assert((flags | 4) & 4 == 4) by (bit_vector);
    assert((flags | 4) & !4u32 == flags & !4u32) by (bit_vector);
    assert((flags | 4) | 4 == flags | 4) by (bit_vector);
}

/// The adapter format handed on by the `CheckDeviceFormat` hook. `A8R8G8B8` isn't
/// displayable; plain D3D9 accepts it all the same, D3D9Ex does not, so the game's
/// object asks for `X8R8G8B8` instead.
pub fn checked_adapter_format(game_d3d9: bool, adapter_format: Format) -> (res: Format)
    ensures
        res == if game_d3d9 && adapter_format == D3DFMT_A8R8G8B8 {
            D3DFMT_X8R8G8B8
        } else {
            adapter_format
        },
{
    if game_d3d9 && adapter_format == D3DFMT_A8R8G8B8 {
        D3DFMT_X8R8G8B8
    } else {
        adapter_format
    }
}

/// Whether an attempt asks for the mode that the desktop is in already.
pub open spec fn matches_desktop(pp: PresentParameters, before: DisplayModeEx) -> bool {
    &&& pp.back_buffer_width == before.width
    &&& pp.back_buffer_height == before.height
    &&& pp.refresh_rate == 0 || rates::nominal_rate(pp.refresh_rate) == rates::nominal_rate(
        before.refresh_rate,
    )
}

/// Returns whether the adapter mode has to be sampled again after a device came
/// alive: where no mode switch was needed, exclusive fullscreen and windowed
/// presentation are indistinguishable.
pub fn wants_mode_check(before: Option<DisplayModeEx>, attempt: Option<Attempt>) -> (res: bool)
    ensures
        res == (before is Some && attempt is Some && !matches_desktop(attempt->0.pp, before->0)),
{
    match (before, attempt) {
        (Some(mode), Some(made)) => {
            let pp = made.pp;
            !(pp.back_buffer_width == mode.width && pp.back_buffer_height == mode.height && (
            pp.refresh_rate == 0 || normalize_reported_rate(pp.refresh_rate)
                == normalize_reported_rate(mode.refresh_rate)))
        },
        _ => false,
    }
}

/// Returns whether exclusive fullscreen looks silently degraded to windowed
/// presentation: a mode switch was needed, and the adapter's mode, sampled again, is
/// what it was.
pub fn exclusive_suspect_degraded(
    before: Option<DisplayModeEx>,
    attempt: Option<Attempt>,
    after: Option<DisplayModeEx>,
) -> (res: bool)
    ensures
        res == (before is Some && attempt is Some && after is Some && !matches_desktop(
            attempt->0.pp,
            before->0,
        ) && after->0.width == before->0.width && after->0.height == before->0.height
            && after->0.refresh_rate == before->0.refresh_rate),
{
    if !wants_mode_check(before, attempt) {
        return false;
    }
    match (before, after) {
        (Some(b), Some(a)) => a.width == b.width && a.height == b.height && a.refresh_rate
            == b.refresh_rate,
        _ => false,
    }
}

/// The back buffer format of the live device.
pub struct BackBufferFormat {
    format: Format,
}

impl View for BackBufferFormat {
    type V = Format;

    closed spec fn view(&self) -> Format {
        self.format
    }
}

impl BackBufferFormat {
    /// No device exists yet.
    pub fn new() -> (res: BackBufferFormat)
        ensures
            res@ == D3DFMT_UNKNOWN,
    {
        BackBufferFormat { format: D3DFMT_UNKNOWN }
    }

    /// Records the format of the attempt that brought the device to life. An unknown format
    /// means that the runtime chose one, and there is nothing to record.
    pub fn record_back_buffer_format(&mut self, attempt: Option<Attempt>)
        ensures
            final(self)@ == if attempt is Some && attempt->0.pp.back_buffer_format
                != D3DFMT_UNKNOWN {
                attempt->0.pp.back_buffer_format
            } else {
                old(self)@
            },
    {
        if let Some(made) = attempt {
            if made.pp.back_buffer_format != D3DFMT_UNKNOWN {
                self.format = made.pp.back_buffer_format;
            }
        }
    }

    /// The format the live device was actually created or last reset with, or `None`
    /// before the first device exists.
    pub fn active_back_buffer_format(&self) -> (res: Option<Format>)
        ensures
            res == if self@ == D3DFMT_UNKNOWN {
                None
            } else {
                Some(self@)
            },
    {
        if self.format == D3DFMT_UNKNOWN {
            None
        } else {
            Some(self.format)
        }
    }
}

/// A change of the result of `Present`.
#[derive(Clone, Copy, Debug, PartialEq, Eq, Structural)]
pub struct PresentChange {
    pub hr: HResult,
    pub prev_hr: HResult,
    /// How many frames the previous result lasted, modulo 2^32.
    pub frames_in_prev: u32,
    pub frame: u32,
}

/// The count of `Present` calls, and the most recent result with the frame at which
/// it began.
#[derive(Clone, Copy, Debug, PartialEq, Eq, Structural)]
pub struct PresentLog {
    pub count: u32,
    pub hr: HResult,
    pub since_frame: u32,
}

impl PresentLog {
    /// Nothing was presented yet.
    pub fn new() -> (res: PresentLog)
        ensures
            res == (PresentLog { count: 0, hr: 0, since_frame: 0 }),
    {
        PresentLog { count: 0, hr: 0, since_frame: 0 }
    }

    /// Counts a call that is about to be made, so that a crash inside it leaves the count
    /// at the attempted frame.
    pub fn begin(&mut self)
        ensures
            *final(self) == (PresentLog {
                count: ((old(self).count + 1) % 0x1_0000_0000) as u32,
                ..*old(self)
            }),
    {
        self.count = self.count.wrapping_add(1);
    }

    /// Takes the result of the call. Gives the change if it differs from the previous one.
    pub fn record(&mut self, hr: HResult) -> (change: Option<PresentChange>)
        ensures
            hr == old(self).hr ==> change is None && *final(self) == *old(self),
            hr != old(self).hr ==> *final(self) == (PresentLog {
                count: old(self).count,
                hr,
                since_frame: old(self).count,
            }) && change == Some(
                PresentChange {
                    hr,
                    prev_hr: old(self).hr,
                    frames_in_prev: ((old(self).count - old(self).since_frame) % 0x1_0000_0000) as
                        u32,
                    frame: old(self).count,
                },
            ),
    {
        if hr == self.hr {
            return None;
        }
        let change = PresentChange {
            hr,
            prev_hr: self.hr,
            frames_in_prev: self.count.wrapping_sub(self.since_frame),
            frame: self.count,
        };
        self.hr = hr;
        self.since_frame = self.count;
        Some(change)
    }
}

/// How a `CreateDevice` call ends once the attempts are over.
#[derive(Clone, Copy, Debug, PartialEq, Eq, Structural)]
pub struct CreateDeviceEnd {
    /// The result that the game sees.
    pub hr: HResult,
    /// The device that came alive.
    pub device: usize,
    /// What is written back to the game's parameters.
    pub restore: Option<PresentParameters>,
}

/// Finishes a `CreateDevice` call: a success without a device is a failure from the
/// game's point of view, so that the game gets its own request back.
pub fn finish_create_device(
    hr: HResult,
    device: usize,
    restore: Option<PresentParameters>,
    requested: Option<PresentParameters>,
) -> (end: CreateDeviceEnd)
    ensures
        end == if !d3d::succeeded(hr) {
            CreateDeviceEnd { hr, device: 0, restore }
        } else if device == 0 {
            CreateDeviceEnd { hr: D3DERR_INVALIDCALL, device: 0, restore: requested }
        } else {
            CreateDeviceEnd { hr, device, restore }
        },
        d3d::succeeded(end.hr) <==> end.device != 0,
{
    if !is_ok(hr) {
        CreateDeviceEnd { hr, device: 0, restore }
    } else if device == 0 {
        CreateDeviceEnd { hr: D3DERR_INVALIDCALL, device: 0, restore: requested }
    } else {
        CreateDeviceEnd { hr, device, restore }
    }
}

/// Devices that are created directly get no concession.
pub proof fn lemma_direct_policy()
    ensures
        !direct_policy().keep_lockable_back_buffer,
        !direct_policy().upgrade_16bit_back_buffer,
{
}

/// The three 16-bit formats have a 32-bit substitute, with alpha where they have it. It is
/// asked for where upgrading is on; and fullscreen never asks for alpha in 32 bits.
/// Nothing else is replaced.
pub proof fn lemma_formats(f: Format, windowed: bool, upgrade: bool)
    ensures
        upgrade_of(f) is Some <==> 23 <= f <= 25,
        upgrade_of(23) == Some(22u32) && upgrade_of(24) == Some(22u32) && upgrade_of(25) == Some(
            21u32,
        ),
        ({
            let plan = planned_format(f, windowed, upgrade);
            &&& upgrade && (f == 23 || f == 24) ==> plan == 22
            &&& upgrade && f == 25 && windowed ==> plan == 21
            &&& upgrade && f == 25 && !windowed ==> plan == 22
            &&& f == 21 && windowed ==> plan == 21
            &&& f == 21 && !windowed ==> plan == 22
            &&& f != 21 && !(upgrade && 23 <= f <= 25) ==> plan == f
        }),
{
}

/// A rewritten request differs from the game's in three fields at most. A back buffer that
/// is not to stay lockable loses that flag alone; where the pacer controls the timing, the
/// runtime presents at once; and the format is the planned one.
pub proof fn lemma_rewritten(pp: PresentParameters, policy: PresentPolicy, controls_timing: bool)
    ensures
        ({
            let r = rewritten(pp, policy, controls_timing);
            &&& r.windowed == pp.windowed
            &&& r.back_buffer_width == pp.back_buffer_width
            &&& r.back_buffer_height == pp.back_buffer_height
            &&& r.back_buffer_count == pp.back_buffer_count
            &&& r.multi_sample_type == pp.multi_sample_type
            &&& r.multi_sample_quality == pp.multi_sample_quality
            &&& r.swap_effect == pp.swap_effect
            &&& r.device_window == pp.device_window
            &&& r.enable_auto_depth_stencil == pp.enable_auto_depth_stencil
            &&& r.auto_depth_stencil_format == pp.auto_depth_stencil_format
            &&& r.refresh_rate == pp.refresh_rate
            &&& policy.keep_lockable_back_buffer ==> r.flags == pp.flags
            &&& !policy.keep_lockable_back_buffer ==> r.flags & 1 == 0 && r.flags | 1 == pp.flags
                | 1
            &&& r.presentation_interval == (if controls_timing {
                0x8000_0000
            } else {
                pp.presentation_interval
            })
            &&& r.back_buffer_format == planned_format(
                pp.back_buffer_format,
                pp.windowed != 0,
                policy.upgrade_16bit_back_buffer,
            )
        }),
{
    let f = pp.flags;
    assert((f & !1u32) & 1 == 0 && (f & !1u32) | 1 == f | 1) by (bit_vector);
}

/// A round first tries the override of the rate and then goes without it, with one format
/// throughout; and a second round comes only where an upgrade is possible and was not made.
pub proof fn lemma_rounds(policy_upgrade: bool, escalatable: bool)
    ensures
        round_of(policy_upgrade).primary.rate_override,
        !round_of(policy_upgrade).rollback.rate_override,
        round_of(policy_upgrade).primary.format_upgrade == policy_upgrade,
        round_of(policy_upgrade).rollback.format_upgrade == policy_upgrade,
        escalates(policy_upgrade, escalatable) <==> escalatable && !policy_upgrade,
{
}

/// The rates for a format are those of the first table for it.
pub proof fn lemma_rates_in(tables: Seq<RateTable>, format: Format)
    ensures
        (forall|i: int| 0 <= i < tables.len() ==> (#[trigger] tables[i]).format != format)
            ==> rates_in(tables, format).len() == 0,
        forall|k: int|
            0 <= k < tables.len() && (#[trigger] tables[k]).format == format && (forall|i: int|
                0 <= i < k ==> (#[trigger] tables[i]).format != format) ==> rates_in(tables, format)
                == tables[k].rates@,
    decreases tables.len(),
{
    if tables.len() > 0 {
        let rest = tables.drop_first();
        lemma_rates_in(rest, format);
        if tables[0].format != format {
            if forall|i: int| 0 <= i < tables.len() ==> (#[trigger] tables[i]).format != format {
                assert forall|i: int| 0 <= i < rest.len() implies (#[trigger] rest[i]).format
                    != format by {
                    assert(rest[i] == tables[i + 1]);
                }
            }
            assert forall|k: int|
                0 <= k < tables.len() && (#[trigger] tables[k]).format == format && (forall|i: int|
                    0 <= i < k ==> (#[trigger] tables[i]).format != format) implies rates_in(
                tables,
                format,
            ) == tables[k].rates@ by {
                assert(rest[k - 1] == tables[k]);
                assert forall|i: int| 0 <= i < k - 1 implies (#[trigger] rest[i]).format
                    != format by {
                    assert(rest[i] == tables[i + 1]);
                }
            }
        }
    }
}

/// The adapter is asked about the size of the request and the formats that fullscreen
/// attempts can have, and about the desktop's rate where a rate will have to be picked.
pub proof fn lemma_query(req: PresentParameters, policy: PresentPolicy, controls_timing: bool)
    ensures
        ({
            let q = query_of(req, policy, controls_timing);
            &&& q.width == req.back_buffer_width && q.height == req.back_buffer_height
            &&& q.first == planned_format(
                req.back_buffer_format,
                false,
                policy.upgrade_16bit_back_buffer,
            )
            &&& q.escalated is Some <==> !policy.upgrade_16bit_back_buffer && 23
                <= req.back_buffer_format <= 25
            &&& q.escalated is Some ==> q.escalated->0 == 22
            &&& q.will_pick <==> controls_timing || req.refresh_rate == 0 || req.refresh_rate == 1
        }),
{
}

/// The desktop's rate is the adapter's own report if that is real, else the system's, else
/// 60; and 60 where none will be picked.
pub proof fn lemma_desktop_rate(
    will_pick: bool,
    desktop_mode: Option<DisplayModeEx>,
    win32_rate: Option<u32>,
)
    ensures
        ({
            let rate = resolved_desktop_rate(will_pick, desktop_mode, win32_rate);
            let reported = desktop_mode is Some && desktop_mode->0.refresh_rate > 1;
            &&& !will_pick ==> rate == 60
            &&& will_pick && reported ==> rate == desktop_mode->0.refresh_rate
            &&& will_pick && !reported && win32_rate is Some ==> rate == win32_rate->0
            &&& will_pick && !reported && win32_rate is None ==> rate == 60
        }),
{
}

/// The display mode of a fullscreen request has its size, rate and format, progressively
/// scanned.
pub proof fn lemma_display_mode(pp: PresentParameters)
    ensures
        display_mode_of(pp).size == 24,
        display_mode_of(pp).width == pp.back_buffer_width,
        display_mode_of(pp).height == pp.back_buffer_height,
        display_mode_of(pp).refresh_rate == pp.refresh_rate,
        display_mode_of(pp).format == pp.back_buffer_format,
        display_mode_of(pp).scan_line_ordering == 1,
{
}

/// A first attempt takes the configured pick where the pacer controls the timing, and the
/// game's own rate where it does not. A rate that is not real gives way to the native pick.
pub proof fn lemma_overridden_rate(requested: u32, supported: Seq<u32>, ctx: LadderCtx)
    ensures
        ({
            let rate = overridden_rate(requested, supported, ctx);
            let native = rates::selected_rate(
                RefreshRateMode::Native,
                supported,
                ctx.snapshot.desktop_rate,
            );
            let picked = rates::selected_rate(
                ctx.refresh_mode,
                supported,
                ctx.snapshot.desktop_rate,
            );
            &&& ctx.controls_timing && picked > 1 ==> rate == picked
            &&& ctx.controls_timing && picked <= 1 ==> rate == native
            &&& !ctx.controls_timing && requested > 1 ==> rate == requested
            &&& !ctx.controls_timing && requested <= 1 ==> rate == native
        }),
{
}

/// A rolled-back attempt keeps the game's own rate, unless a display mode is needed and the
/// rate is not real: then it is the desktop's, or 60.
pub proof fn lemma_rollback_rate(requested: u32, ctx: LadderCtx)
    ensures
        ({
            let rate = rollback_rate(requested, ctx);
            let desktop = ctx.snapshot.desktop_mode;
            &&& requested > 1 || !ctx.consumes_display_mode ==> rate == requested
            &&& requested <= 1 && ctx.consumes_display_mode && desktop is Some
                && desktop->0.refresh_rate > 1 ==> rate == desktop->0.refresh_rate
            &&& requested <= 1 && ctx.consumes_display_mode && !(desktop is Some
                && desktop->0.refresh_rate > 1) ==> rate == 60
        }),
{
}

/// An attempt is the rewritten request with the attempt's own choice of upgrading. A
/// windowed one keeps the rate of the request; a fullscreen one has the overriding or the
/// rolled-back rate, picked among the rates for its own format.
pub proof fn lemma_attempt_params(requested: PresentParameters, fixes: FixSet, ctx: LadderCtx)
    ensures
        ({
            let pp = attempt_params(requested, fixes, ctx);
            let r = rewritten(
                requested,
                PresentPolicy {
                    keep_lockable_back_buffer: ctx.policy.keep_lockable_back_buffer,
                    upgrade_16bit_back_buffer: fixes.format_upgrade,
                },
                ctx.controls_timing,
            );
            &&& pp == (PresentParameters { refresh_rate: pp.refresh_rate, ..r })
            &&& requested.windowed != 0 ==> pp.refresh_rate == requested.refresh_rate
            &&& requested.windowed == 0 && fixes.rate_override ==> pp.refresh_rate
                == overridden_rate(
                requested.refresh_rate,
                rates_in(ctx.snapshot.tables@, pp.back_buffer_format),
                ctx,
            )
            &&& requested.windowed == 0 && !fixes.rate_override ==> pp.refresh_rate
                == rollback_rate(requested.refresh_rate, ctx)
            &&& pp.windowed == requested.windowed
        }),
{
}

/// Four failures pass by themselves: the device is lost, removed or hung, or out of memory.
pub proof fn lemma_transient(hr: HResult)
    ensures
        transient(hr) <==> hr + 0x1_0000_0000 == 0x8876_0868 || hr + 0x1_0000_0000 == 0x8876_0870
            || hr + 0x1_0000_0000 == 0x8876_0874 || hr + 0x1_0000_0000 == 0x8876_017c,
        transient(hr) ==> hr < 0,
{
}

/// Exactly the managed pool, number 1, is translated: to the default pool, number 0, with
/// the dynamic usage added to the others.
pub proof fn lemma_translated_pool(pool: u32, usage: u32)
    ensures
        pool == 1 ==> translated_pool(pool, usage) == (0u32, usage | 0x200),
        pool != 1 ==> translated_pool(pool, usage) == (pool, usage),
{
}

/// An attempt matches the desktop when its size is the desktop's and its rate is left open
/// or stands for the same nominal rate.
pub proof fn lemma_matches_desktop(pp: PresentParameters, before: DisplayModeEx)
    ensures
        matches_desktop(pp, before) ==> pp.back_buffer_width == before.width
            && pp.back_buffer_height == before.height,
        pp.back_buffer_width == before.width && pp.back_buffer_height == before.height && (
        pp.refresh_rate == 0 || pp.refresh_rate == before.refresh_rate) ==> matches_desktop(
            pp,
            before,
        ),
        pp.back_buffer_width == before.width && pp.back_buffer_height == before.height
            && pp.refresh_rate != 0 ==> (matches_desktop(pp, before) <==> rates::nominal_rate(
            pp.refresh_rate,
        ) == rates::nominal_rate(before.refresh_rate)),
{
}

/// Of an adapter that was not sampled nothing is known, and its rate is taken for 60 Hz.
pub proof fn lemma_empty_snapshot(snap: AdapterSnapshot)
    ensures
        snap.is_empty() <==> snap.desktop_mode is None && snap.desktop_rate == 60 && snap.tables@
            == Seq::<RateTable>::empty(),
{
    if snap.tables@.len() == 0 {
        assert(snap.tables@ =~= Seq::<RateTable>::empty());
    }
}

} // verus!
