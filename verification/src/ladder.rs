//! The sequence of attempts behind one `CreateDeviceEx`, `Reset` or `ResetEx` call.
//!
//! Each round makes a primary attempt with the refresh-rate override and, where the
//! override changed the rate and the attempt failed, a rollback without it. A 16-bit
//! request that the policy leaves alone gets a second round with a 32-bit back
//! buffer. On success the runtime's write-back is left for the game to read; when
//! every attempt fails, the game gets its own request back.

use vstd::prelude::*;
use crate::d3d::{is_ok, HResult, PresentParameters};
use crate::d3d9::{
    is_transient_device_error, materialize, plan_attempts, upgraded_back_buffer_format, Attempt,
    FixSet, LadderCtx, Round,
};
use crate::{d3d, d3d9};

verus! {

/// Whether a second, escalated round exists for `requested`.
pub open spec fn has_second_round(requested: Option<PresentParameters>, ctx: LadderCtx) -> bool {
    requested is Some && d3d9::escalates(
        ctx.policy.upgrade_16bit_back_buffer,
        d3d9::upgrade_of(requested->0.back_buffer_format) is Some,
    )
}

/// The overrides of the attempt in `slot`: even slots are primaries, odd ones
/// rollbacks; slots 2 and 3 form the escalated round.
pub open spec fn fixes_of(slot: int, ctx: LadderCtx) -> FixSet {
    FixSet {
        rate_override: slot % 2 == 0,
        format_upgrade: ctx.policy.upgrade_16bit_back_buffer || slot >= 2,
    }
}

/// The attempt in `slot`, derived from the request and never from another attempt.
pub open spec fn slot_attempt(
    requested: Option<PresentParameters>,
    ctx: LadderCtx,
    slot: int,
) -> Option<Attempt> {
    match requested {
        Some(req) => Some(d3d9::attempt_of(req, fixes_of(slot, ctx), ctx)),
        None => None,
    }
}

/// Whether the attempt in `slot` is fullscreen with another rate than requested.
pub open spec fn overrode_rate(requested: Option<PresentParameters>, ctx: LadderCtx, slot: int) -> bool {
    requested is Some && requested->0.windowed == 0 && slot_attempt(
        requested,
        ctx,
        slot,
    )->0.pp.refresh_rate != requested->0.refresh_rate
}

/// The slot to try after `slot` gave `hr`, or `None` when the sequence is over.
pub open spec fn next_slot(
    requested: Option<PresentParameters>,
    ctx: LadderCtx,
    slot: int,
    hr: HResult,
) -> Option<int> {
    if d3d::succeeded(hr) || d3d9::transient(hr) {
        None
    } else if slot % 2 == 0 && overrode_rate(requested, ctx, slot) {
        Some(slot + 1)
    } else if slot < 2 && has_second_round(requested, ctx) {
        Some(2)
    } else {
        None
    }
}

/// Whether `slot` can occur at all.
pub open spec fn slot_exists(requested: Option<PresentParameters>, ctx: LadderCtx, slot: int) -> bool {
    0 <= slot < 4 && (slot >= 2 ==> has_second_round(requested, ctx))
}

/// A slot is only ever followed by a later one, so there are at most four attempts.
pub proof fn lemma_slots_increase(
    requested: Option<PresentParameters>,
    ctx: LadderCtx,
    slot: int,
    hr: HResult,
)
    requires
        slot_exists(requested, ctx, slot),
    ensures
        next_slot(requested, ctx, slot, hr) is Some ==> slot < next_slot(
            requested,
            ctx,
            slot,
            hr,
        )->0 && slot_exists(requested, ctx, next_slot(requested, ctx, slot, hr)->0),
{
}

/// A transient error stops the sequence wherever it comes.
pub proof fn lemma_transient_stops(
    requested: Option<PresentParameters>,
    ctx: LadderCtx,
    slot: int,
    hr: HResult,
)
    requires
        d3d9::transient(hr),
    ensures
        next_slot(requested, ctx, slot, hr) is None,
{
}

/// Windowed requests are never rolled back: they have no display mode.
pub proof fn lemma_windowed_skips_rollbacks(
    requested: Option<PresentParameters>,
    ctx: LadderCtx,
    slot: int,
    hr: HResult,
)
    requires
        requested is Some,
        requested->0.windowed != 0,
        slot == 0 || slot == 2,
    ensures
        next_slot(requested, ctx, slot, hr) is Some ==> next_slot(requested, ctx, slot, hr)->0
            == 2 && slot == 0,
{
}

/// Without a request there is exactly one call, whatever it gives.
pub proof fn lemma_no_request_single_call(ctx: LadderCtx, hr: HResult)
    ensures
        next_slot(None, ctx, 0, hr) is None,
        slot_attempt(None, ctx, 0) is None,
{
}

/// One call to make: the attempt's parameters are written to the caller's structure
/// first. Without a request there is no attempt, and the bare call is made.
#[derive(Clone, Copy, Debug, PartialEq, Eq, Structural)]
pub struct LadderCall {
    pub slot: u32,
    pub attempt: Option<Attempt>,
}

/// How a sequence of attempts ended.
#[derive(Clone, Copy, Debug, PartialEq, Eq, Structural)]
pub struct LadderEnd {
    pub hr: HResult,
    /// The last attempt made.
    pub attempt: Option<Attempt>,
    /// The game's own request, to be written back to its structure; absent on
    /// success, where the runtime's write-back stays.
    pub restore: Option<PresentParameters>,
}

/// What follows the result of a call.
#[derive(Clone, Copy, Debug, PartialEq, Eq, Structural)]
pub enum LadderStep {
    Call(LadderCall),
    Done(LadderEnd),
}

/// The step that follows result `hr` of `slot`.
pub open spec fn step_of(
    requested: Option<PresentParameters>,
    ctx: LadderCtx,
    slot: int,
    hr: HResult,
) -> LadderStep {
    match next_slot(requested, ctx, slot, hr) {
        Some(next) => LadderStep::Call(
            LadderCall { slot: next as u32, attempt: slot_attempt(requested, ctx, next) },
        ),
        None => LadderStep::Done(
            LadderEnd {
                hr,
                attempt: slot_attempt(requested, ctx, slot),
                restore: if d3d::succeeded(hr) {
                    None
                } else {
                    requested
                },
            },
        ),
    }
}

/// A sequence of attempts in progress.
pub struct Ladder {
    requested: Option<PresentParameters>,
    rounds: [Option<Round>; 2],
    current: LadderCall,
}

impl Ladder {
    /// The request the attempts are derived from.
    pub closed spec fn requested(self) -> Option<PresentParameters> {
        self.requested
    }

    /// The slot of the call whose result is awaited.
    pub closed spec fn slot(self) -> int {
        self.current.slot as int
    }

    /// The awaited call is the attempt of an existing slot.
    pub closed spec fn wf(self, ctx: LadderCtx) -> bool {
        &&& slot_exists(self.requested, ctx, self.current.slot as int)
        &&& self.current.attempt == slot_attempt(self.requested, ctx, self.current.slot as int)
        &&& self.rounds@[0] == Some(d3d9::round_of(ctx.policy.upgrade_16bit_back_buffer))
        &&& self.rounds@[1] == if has_second_round(self.requested, ctx) {
            Some(d3d9::round_of(true))
        } else {
            None
        }
    }

    /// Starts the attempts for `requested` with its first call.
    pub fn start(requested: Option<PresentParameters>, ctx: &LadderCtx) -> (res: (Ladder, LadderCall))
        ensures
            res.0.wf(*ctx),
            res.0.requested() == requested,
            res.0.slot() == 0,
            res.1.slot == 0,
            res.1.attempt == slot_attempt(requested, *ctx, 0),
    {
        let escalatable = match requested {
            Some(req) => upgraded_back_buffer_format(req.back_buffer_format).is_some(),
            None => false,
        };
        let rounds = plan_attempts(ctx.policy.upgrade_16bit_back_buffer, escalatable);
        let attempt = match (requested, rounds[0]) {
            (Some(req), Some(round)) => Some(materialize(&req, round.primary, ctx)),
            _ => None,
        };
        let current = LadderCall { slot: 0, attempt };
        (Ladder { requested, rounds, current }, current)
    }

    /// Takes the result of the awaited call and says what follows.
    pub fn advance(&mut self, ctx: &LadderCtx, hr: HResult) -> (step: LadderStep)
        requires
            old(self).wf(*ctx),
        ensures
            final(self).requested() == old(self).requested(),
            step == step_of(old(self).requested(), *ctx, old(self).slot(), hr),
            step is Call ==> final(self).wf(*ctx) && final(self).slot() == step->Call_0.slot,
            step is Done ==> *final(self) == *old(self),
    {
        let slot: u32 = self.current.slot;
        let attempt = self.current.attempt;
        if is_ok(hr) {
            return LadderStep::Done(LadderEnd { hr, attempt, restore: None });
        }
        let (req, made) = match (self.requested, attempt) {
            (Some(req), Some(made)) => (req, made),
            _ => {
                return LadderStep::Done(LadderEnd { hr, attempt, restore: None });
            },
        };
        if !is_transient_device_error(hr) {
            let round_index: usize = if slot < 2 {
                0
            } else {
                1
            };
            if slot % 2 == 0 && made.mode.is_some() && made.pp.refresh_rate != req.refresh_rate {
                if let Some(round) = self.rounds[round_index] {
                    let rollback = materialize(&req, round.rollback, ctx);
                    self.current = LadderCall { slot: slot + 1, attempt: Some(rollback) };
                    return LadderStep::Call(self.current);
                }
            } else if round_index == 0 {
                if let Some(round) = self.rounds[1] {
                    let primary = materialize(&req, round.primary, ctx);
                    self.current = LadderCall { slot: 2, attempt: Some(primary) };
                    return LadderStep::Call(self.current);
                }
            }
        }
        LadderStep::Done(LadderEnd { hr, attempt, restore: Some(req) })
    }
}

/// The calls made from `slot` on when their results are those of `script`.
pub open spec fn calls_from(
    requested: Option<PresentParameters>,
    ctx: LadderCtx,
    slot: int,
    script: Seq<HResult>,
) -> Seq<LadderCall>
    decreases script.len(),
{
    let call = LadderCall { slot: slot as u32, attempt: slot_attempt(requested, ctx, slot) };
    if script.len() == 0 {
        seq![call]
    } else {
        match next_slot(requested, ctx, slot, script[0]) {
            Some(next) => seq![call] + calls_from(requested, ctx, next, script.drop_first()),
            None => seq![call],
        }
    }
}

/// How the attempts from `slot` on end when their results are those of `script`.
pub open spec fn end_from(
    requested: Option<PresentParameters>,
    ctx: LadderCtx,
    slot: int,
    script: Seq<HResult>,
) -> Option<LadderEnd>
    decreases script.len(),
{
    if script.len() == 0 {
        None
    } else {
        match next_slot(requested, ctx, slot, script[0]) {
            Some(next) => end_from(requested, ctx, next, script.drop_first()),
            None => Some(step_of(requested, ctx, slot, script[0])->Done_0),
        }
    }
}

/// All the calls of a sequence of attempts and its end.
pub struct LadderRun {
    pub calls: Vec<LadderCall>,
    pub end: LadderEnd,
}

/// Runs the whole sequence of attempts for `requested` against the results that the
/// successive calls give. Four results are always enough.
pub fn run_fix_ladder(requested: Option<PresentParameters>, ctx: &LadderCtx, script: &[HResult]) -> (run:
    Option<LadderRun>)
    ensures
        run is None <==> end_from(requested, *ctx, 0, script@) is None,
        run is Some ==> run->0.calls@ == calls_from(requested, *ctx, 0, script@) && Some(
            run->0.end,
        ) == end_from(requested, *ctx, 0, script@),
        script@.len() >= 4 ==> run is Some,
{
    let (mut ladder, first) = Ladder::start(requested, ctx);
    let mut calls: Vec<LadderCall> = Vec::new();
    calls.push(first);
    let mut i: usize = 0;
    let ghost all = calls_from(requested, *ctx, 0, script@);
    proof {
        assert(script@.skip(0) =~= script@);
        lemma_calls_nonempty(requested, *ctx, 0, script@);
        assert(seq![all[0]] + all.skip(1) =~= all);
        assert(calls@ =~= seq![all[0]]);
    }
    while i < script.len()
        invariant
            i <= script.len(),
            ladder.wf(*ctx),
            ladder.requested() == requested,
            calls@.len() > 0,
            i <= ladder.slot() < 4,
            all == calls_from(requested, *ctx, 0, script@),
            all == calls@.drop_last() + calls_from(
                requested,
                *ctx,
                ladder.slot(),
                script@.skip(i as int),
            ),
            calls@.last() == (LadderCall {
                slot: ladder.slot() as u32,
                attempt: slot_attempt(requested, *ctx, ladder.slot()),
            }),
            end_from(requested, *ctx, 0, script@) == end_from(
                requested,
                *ctx,
                ladder.slot(),
                script@.skip(i as int),
            ),
        decreases script.len() - i,
    {
        let hr: HResult = script[i];
        let ghost slot = ladder.slot();
        let ghost rest = script@.skip(i as int);
        let ghost before = calls@;
        proof {
            assert(rest[0] == hr);
            assert(rest.drop_first() =~= script@.skip(i + 1));
            lemma_slots_increase(requested, *ctx, slot, hr);
        }
        match ladder.advance(ctx, hr) {
            LadderStep::Call(call) => {
                calls.push(call);
                proof {
                    let next = next_slot(requested, *ctx, slot, hr)->0;
                    assert(calls@.drop_last() =~= before);
                    assert(before =~= before.drop_last() + seq![before.last()]);
                    assert(before.drop_last() + (seq![before.last()] + calls_from(
                        requested,
                        *ctx,
                        next,
                        rest.drop_first(),
                    )) =~= before + calls_from(requested, *ctx, next, rest.drop_first()));
                }
            },
            LadderStep::Done(end) => {
                assert(before =~= before.drop_last() + seq![before.last()]);
                return Some(LadderRun { calls, end });
            },
        }
        i += 1;
    }
    None
}

/// A run makes at least its first call.
proof fn lemma_calls_nonempty(
    requested: Option<PresentParameters>,
    ctx: LadderCtx,
    slot: int,
    script: Seq<HResult>,
)
    ensures
        calls_from(requested, ctx, slot, script).len() > 0,
        calls_from(requested, ctx, slot, script)[0] == (LadderCall {
            slot: slot as u32,
            attempt: slot_attempt(requested, ctx, slot),
        }),
{
}

/// A run that ends gives the game its own request back exactly when it failed; its
/// result is the last one it consumed, and it made between one and four calls.
pub proof fn lemma_run_restores_on_failure(
    requested: Option<PresentParameters>,
    ctx: LadderCtx,
    slot: int,
    script: Seq<HResult>,
)
    requires
        slot_exists(requested, ctx, slot),
        end_from(requested, ctx, slot, script) is Some,
    ensures
        ({
            let end = end_from(requested, ctx, slot, script)->0;
            let calls = calls_from(requested, ctx, slot, script);
            &&& end.restore == if d3d::succeeded(end.hr) {
                None
            } else {
                requested
            }
            &&& 1 <= calls.len() <= 4 - slot
            &&& calls.len() <= script.len()
            &&& end.hr == script[calls.len() - 1]
            &&& end.attempt == calls.last().attempt
        }),
    decreases script.len(),
{
    match next_slot(requested, ctx, slot, script[0]) {
        Some(next) => {
            lemma_slots_increase(requested, ctx, slot, script[0]);
            lemma_run_restores_on_failure(requested, ctx, next, script.drop_first());
            let rest = calls_from(requested, ctx, next, script.drop_first());
            assert(script.drop_first()[rest.len() - 1] == script[rest.len() as int]);
        },
        None => {},
    }
}

/// A second round of attempts exists for the 16-bit formats that the policy did not upgrade
/// up front.
pub proof fn lemma_second_round(requested: Option<PresentParameters>, ctx: LadderCtx)
    ensures
        has_second_round(requested, ctx) <==> requested is Some
            && !ctx.policy.upgrade_16bit_back_buffer && 23 <= requested->0.back_buffer_format
            <= 25,
{
}

/// The four attempts in order: with and without the override of the rate, first as the
/// policy has the format, then upgraded.
pub proof fn lemma_fixes(ctx: LadderCtx)
    ensures
        fixes_of(0, ctx).rate_override && !fixes_of(1, ctx).rate_override,
        fixes_of(2, ctx).rate_override && !fixes_of(3, ctx).rate_override,
        fixes_of(0, ctx).format_upgrade == ctx.policy.upgrade_16bit_back_buffer,
        fixes_of(1, ctx).format_upgrade == ctx.policy.upgrade_16bit_back_buffer,
        fixes_of(2, ctx).format_upgrade && fixes_of(3, ctx).format_upgrade,
{
}

/// A success ends the attempts, and so does a failure that passes by itself. After any other
/// failure, an attempt that changed the rate of a fullscreen request is made again without
/// that; else the next round is begun, if there is one.
pub proof fn lemma_next_slot(
    requested: Option<PresentParameters>,
    ctx: LadderCtx,
    slot: int,
    hr: HResult,
)
    requires
        0 <= slot < 4,
    ensures
        ({
            let next = next_slot(requested, ctx, slot, hr);
            let changed_rate = requested is Some && requested->0.windowed == 0 && d3d9::attempt_of(
                requested->0,
                fixes_of(slot, ctx),
                ctx,
            ).pp.refresh_rate != requested->0.refresh_rate;
            let retry = (slot == 0 || slot == 2) && changed_rate;
            &&& hr >= 0 ==> next is None
            &&& d3d9::transient(hr) ==> next is None
            &&& hr < 0 && !d3d9::transient(hr) && retry ==> next == Some(slot + 1)
            &&& hr < 0 && !d3d9::transient(hr) && !retry && slot < 2 && has_second_round(
                requested,
                ctx,
            ) ==> next == Some(2int)
            &&& hr < 0 && !d3d9::transient(hr) && !retry && !(slot < 2 && has_second_round(
                requested,
                ctx,
            )) ==> next is None
        }),
{
}

/// Whether call `i + 1` is what follows from the result of call `i`.
pub open spec fn follows_up(
    requested: Option<PresentParameters>,
    ctx: LadderCtx,
    calls: Seq<LadderCall>,
    script: Seq<HResult>,
    i: int,
) -> bool {
    next_slot(requested, ctx, calls[i].slot as int, script[i]) == Some(calls[i + 1].slot as int)
}

/// Each attempt of a run is made of the game's own request, and each but the first follows
/// from the failure of the one before it.
pub proof fn lemma_calls(
    requested: Option<PresentParameters>,
    ctx: LadderCtx,
    slot: int,
    script: Seq<HResult>,
)
    requires
        slot_exists(requested, ctx, slot),
    ensures
        ({
            let calls = calls_from(requested, ctx, slot, script);
            &&& 0 < calls.len() <= script.len() + 1
            &&& calls[0].slot == slot
            &&& forall|i: int|
                0 <= i < calls.len() ==> (#[trigger] calls[i]).attempt == slot_attempt(
                    requested,
                    ctx,
                    calls[i].slot as int,
                )
            &&& forall|i: int|
                0 <= i < calls.len() - 1 ==> #[trigger] follows_up(requested, ctx, calls, script, i)
        }),
    decreases script.len(),
{
    let calls = calls_from(requested, ctx, slot, script);
    if script.len() > 0 && next_slot(requested, ctx, slot, script[0]) is Some {
        let next = next_slot(requested, ctx, slot, script[0])->0;
        let tail = script.drop_first();
        lemma_slots_increase(requested, ctx, slot, script[0]);
        let rest = calls_from(requested, ctx, next, tail);
        lemma_calls(requested, ctx, next, tail);
        let call = LadderCall { slot: slot as u32, attempt: slot_attempt(requested, ctx, slot) };
        assert(calls == seq![call] + rest);
        assert forall|i: int| 0 <= i < calls.len() implies (#[trigger] calls[i]).attempt
            == slot_attempt(requested, ctx, calls[i].slot as int) by {
            if i > 0 {
                assert(calls[i] == rest[i - 1]);
            }
        }
        assert forall|i: int| 0 <= i < calls.len() - 1 implies #[trigger] follows_up(
            requested,
            ctx,
            calls,
            script,
            i,
        ) by {
            assert(calls[i + 1] == rest[i]);
            if i > 0 {
                assert(follows_up(requested, ctx, rest, tail, i - 1));
                assert(calls[i] == rest[i - 1]);
                assert(tail[i - 1] == script[i]);
            }
        }
    }
}

/// Without parameters an attempt has none; with them it is made of them.
pub proof fn lemma_slot_attempt(requested: Option<PresentParameters>, ctx: LadderCtx, slot: int)
    ensures
        requested is None ==> slot_attempt(requested, ctx, slot) is None,
        requested is Some ==> slot_attempt(requested, ctx, slot) == Some(
            d3d9::attempt_of(requested->0, fixes_of(slot, ctx), ctx),
        ),
{
}

/// A step either makes the next attempt or ends with the last result and attempt; a failure
/// at the end gives the game its own request back.
pub proof fn lemma_steps(
    requested: Option<PresentParameters>,
    ctx: LadderCtx,
    slot: int,
    hr: HResult,
)
    requires
        slot_exists(requested, ctx, slot),
    ensures
        match step_of(requested, ctx, slot, hr) {
            LadderStep::Call(call) => {
                &&& next_slot(requested, ctx, slot, hr) == Some(call.slot as int)
                &&& call.attempt == slot_attempt(requested, ctx, call.slot as int)
            },
            LadderStep::Done(end) => {
                &&& next_slot(requested, ctx, slot, hr) is None
                &&& end.hr == hr
                &&& end.attempt == slot_attempt(requested, ctx, slot)
                &&& hr >= 0 ==> end.restore is None
                &&& hr < 0 ==> end.restore == requested
            },
        },
{
    lemma_slots_increase(requested, ctx, slot, hr);
}

} // verus!
