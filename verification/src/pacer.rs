//! Frame pacer.
//!
//! Frame timing is driven in software, so the render cadence is independent of the
//! display's refresh rate. The deadline is kept in counter ticks and advanced by exactly
//! one period per frame, so transient hitches don't smear into permanent drift. A change
//! of policy resets the deadline, and the next wait resyncs.
//!
//! With live input a wait ends half a period ahead of the deadline, so that the next tick
//! reads input that much earlier. The deadline itself is unaffected.

use crate::thread::MainToken;
use vstd::prelude::*;

verus! {

/// How far ahead of the deadline the timer wakes, in units of 100 ns. The rest is spun.
pub const SAFETY_MARGIN_100NS: i64 = 2_000;

/// The gap beyond which a wait resyncs instead of catching up, in milliseconds.
pub const RESYNC_THRESHOLD_MS: i64 = 50;

/// Distinguishes when the game reads real-time input, and a wait leads, from when it
/// drives its own schedule.
#[derive(Clone, Copy, Debug, PartialEq, Eq, Structural)]
pub enum PacingPolicy {
    LiveInput { target_fps: u32 },
    InternalCadence { target_fps: u32 },
}

impl PacingPolicy {
    pub open spec fn fps(self) -> u32 {
        match self {
            PacingPolicy::LiveInput { target_fps } => target_fps,
            PacingPolicy::InternalCadence { target_fps } => target_fps,
        }
    }

    pub fn target_fps(self) -> (fps: u32)
        ensures
            fps == self.fps(),
    {
        match self {
            PacingPolicy::LiveInput { target_fps } => target_fps,
            PacingPolicy::InternalCadence { target_fps } => target_fps,
        }
    }

    /// Whether a wait leads its deadline.
    pub fn lead_active(self) -> (lead: bool)
        ensures
            lead == (self is LiveInput),
    {
        match self {
            PacingPolicy::LiveInput { .. } => true,
            PacingPolicy::InternalCadence { .. } => false,
        }
    }
}

/// The ticks of one frame; 0 disables pacing.
pub open spec fn period_of(fps: u32, freq: i64) -> int {
    if fps == 0 {
        0
    } else {
        freq as int / fps as int
    }
}

fn period_qpc_from(target_fps: u32, qpc_freq: i64) -> (period: i64)
    requires
        qpc_freq >= 0,
    ensures
        period == period_of(target_fps, qpc_freq),
        0 <= period <= qpc_freq,
{
    if target_fps == 0 {
        0
    } else {
        let fps: i64 = target_fps as i64;
        proof {
            assert(0 <= qpc_freq as int / fps as int <= qpc_freq) by (nonlinear_arith)
                requires
                    qpc_freq >= 0,
                    fps > 0,
            ;
        }
        qpc_freq / fps
    }
}

/// The deadline after a wait that finds the time `now`: a missed first deadline, or one
/// missed by more than `threshold`, starts over; otherwise it moves on by one period.
pub open spec fn next_deadline(deadline: int, now: int, period: int, threshold: int) -> int {
    if period == 0 {
        deadline
    } else if resyncs(deadline, now, threshold) {
        now + period
    } else {
        deadline + period
    }
}

/// Whether a wait starts over.
pub open spec fn resyncs(deadline: int, now: int, threshold: int) -> bool {
    deadline == 0 || now > deadline + threshold
}

/// When a wait for `deadline` ends.
pub open spec fn wait_target(deadline: int, period: int, lead: bool) -> int {
    if lead {
        deadline - period / 2
    } else {
        deadline
    }
}

/// How a wait goes on.
#[derive(Clone, Copy, Debug, PartialEq, Eq, Structural)]
pub enum Wait {
    /// Pacing is off.
    Unpaced,
    /// The deadline was started over; nothing is waited for.
    Resynced,
    /// The target has passed; the frame catches up.
    Late,
    /// Sleep until this tick.
    SleepUntil(i64),
}

/// How to sleep; the rest up to the target is spun.
#[derive(Clone, Copy, Debug, PartialEq, Eq, Structural)]
pub enum SleepPlan {
    /// Arm the timer with this relative due time, in units of 100 ns, and wait for it.
    Timer { due: i64 },
    /// Sleep this many milliseconds.
    Sleep { ms: u32 },
    /// Too little is left to sleep.
    SpinOnly,
}

/// The pacer's state on the render thread.
pub struct Pacer {
    qpc_freq: i64,
    resync_threshold_qpc: i64,
    has_timer: bool,
    period_qpc: i64,
    lead_active: bool,
    deadline_qpc: i64,
}

impl Pacer {
    pub closed spec fn freq(&self) -> int {
        self.qpc_freq as int
    }

    /// The gap beyond which a wait resyncs, in ticks.
    pub closed spec fn threshold(&self) -> int {
        self.resync_threshold_qpc as int
    }

    pub closed spec fn timer(&self) -> bool {
        self.has_timer
    }

    pub closed spec fn period(&self) -> int {
        self.period_qpc as int
    }

    pub closed spec fn leads(&self) -> bool {
        self.lead_active
    }

    /// The next deadline; 0 when the next wait resyncs.
    pub closed spec fn deadline(&self) -> int {
        self.deadline_qpc as int
    }

    /// The counter runs, and nothing is negative.
    pub open spec fn wf(&self) -> bool {
        &&& 0 < self.freq() <= i64::MAX
        &&& self.threshold() == self.freq() * RESYNC_THRESHOLD_MS / 1000
        &&& 0 <= self.period() <= self.freq()
        &&& 0 <= self.deadline() <= i64::MAX
    }

    /// Starts pacing with a counter of `qpc_freq` ticks per second.
    pub fn new(policy: PacingPolicy, qpc_freq: i64, has_timer: bool) -> (pacer: Pacer)
        requires
            0 < qpc_freq,
            qpc_freq * RESYNC_THRESHOLD_MS <= i64::MAX,
        ensures
            pacer.wf(),
            pacer.freq() == qpc_freq,
            pacer.threshold() == qpc_freq * RESYNC_THRESHOLD_MS / 1000,
            pacer.timer() == has_timer,
            pacer.period() == period_of(policy.fps(), qpc_freq),
            pacer.leads() == (policy is LiveInput),
            pacer.deadline() == 0,
    {
        Pacer {
            qpc_freq,
            resync_threshold_qpc: qpc_freq * RESYNC_THRESHOLD_MS / 1000,
            has_timer,
            period_qpc: period_qpc_from(policy.target_fps(), qpc_freq),
            lead_active: policy.lead_active(),
            deadline_qpc: 0,
        }
    }

    /// Changes the policy. The deadline is reset, or a stale one would chase the wrong
    /// period for several frames.
    pub fn apply_policy(&mut self, _tok: &MainToken, policy: PacingPolicy)
        requires
            old(self).wf(),
        ensures
            final(self).wf(),
            final(self).freq() == old(self).freq(),
            final(self).threshold() == old(self).threshold(),
            final(self).timer() == old(self).timer(),
            final(self).period() == period_of(policy.fps(), old(self).freq() as i64),
            final(self).leads() == (policy is LiveInput),
            final(self).deadline() == 0,
    {
        self.period_qpc = period_qpc_from(policy.target_fps(), self.qpc_freq);
        self.lead_active = policy.lead_active();
        self.deadline_qpc = 0;
    }

    /// Decides on the wait of one frame at the time `now`, and advances the deadline.
    pub fn wait(&mut self, _tok: &MainToken, now: i64) -> (wait: Wait)
        requires
            old(self).wf(),
            0 <= now,
            now + old(self).period() <= i64::MAX,
            old(self).deadline() + old(self).threshold() <= i64::MAX,
            old(self).deadline() + old(self).period() <= i64::MAX,
        ensures
            final(self).wf(),
            final(self).freq() == old(self).freq(),
            final(self).threshold() == old(self).threshold(),
            final(self).timer() == old(self).timer(),
            final(self).period() == old(self).period(),
            final(self).leads() == old(self).leads(),
            final(self).deadline() == next_deadline(
                old(self).deadline(),
                now as int,
                old(self).period(),
                old(self).threshold(),
            ),
            ({
                let target = wait_target(
                    old(self).deadline(),
                    old(self).period(),
                    old(self).leads(),
                );
                match wait {
                    Wait::Unpaced => old(self).period() == 0,
                    Wait::Resynced => old(self).period() != 0 && resyncs(
                        old(self).deadline(),
                        now as int,
                        old(self).threshold(),
                    ),
                    Wait::Late => old(self).period() != 0 && !resyncs(
                        old(self).deadline(),
                        now as int,
                        old(self).threshold(),
                    ) && now >= target,
                    Wait::SleepUntil(t) => old(self).period() != 0 && !resyncs(
                        old(self).deadline(),
                        now as int,
                        old(self).threshold(),
                    ) && now < target && t == target,
                }
            }),
    {
        let period: i64 = self.period_qpc;
        if period == 0 {
            return Wait::Unpaced;
        }
        let deadline: i64 = self.deadline_qpc;
        if deadline == 0 || now > deadline + self.resync_threshold_qpc {
            self.deadline_qpc = now + period;
            return Wait::Resynced;
        }
        let target: i64 = if self.lead_active {
            deadline - period / 2
        } else {
            deadline
        };
        self.deadline_qpc = deadline + period;
        if now < target {
            Wait::SleepUntil(target)
        } else {
            Wait::Late
        }
    }

    /// Decides how to sleep from `now` until `target`. Without a timer the sleep ends a
    /// millisecond early; with one, by the safety margin.
    pub fn sleep_until(&self, _tok: &MainToken, target: i64, now: i64) -> (plan: SleepPlan)
        requires
            self.wf(),
            0 <= now < target,
            !self.timer() ==> (target - now) * 1000 <= i64::MAX,
        ensures
            plan == (if self.timer() {
                let units = units_of(target - now, self.freq());
                if units > SAFETY_MARGIN_100NS {
                    SleepPlan::Timer { due: (SAFETY_MARGIN_100NS - units) as i64 }
                } else {
                    SleepPlan::SpinOnly
                }
            } else {
                let ms = ms_of(target - now, self.freq());
                if ms > 1 {
                    SleepPlan::Sleep { ms: (ms - 1) as u32 }
                } else {
                    SleepPlan::SpinOnly
                }
            }),
            match plan {
                SleepPlan::Timer { due } => units_of(target - now, self.freq()) + due == 2_000,
                SleepPlan::Sleep { ms } => ms_of(target - now, self.freq()) == ms + 1,
                SleepPlan::SpinOnly => self.timer() ==> units_of(target - now, self.freq())
                    <= 2_000,
            },
    {
        let remaining: i64 = target - now;
        if !self.has_timer {
            let ms: u32 = qpc_to_ms(remaining, self.qpc_freq);
            if ms > 1 {
                return SleepPlan::Sleep { ms: ms - 1 };
            }
            return SleepPlan::SpinOnly;
        }
        let units: i64 = qpc_to_100ns(remaining, self.qpc_freq);
        if units > SAFETY_MARGIN_100NS {
            SleepPlan::Timer { due: -(units - SAFETY_MARGIN_100NS) }
        } else {
            SleepPlan::SpinOnly
        }
    }
}

/// Ticks in milliseconds, as far as they fit.
pub open spec fn ms_of(ticks: int, freq: int) -> int {
    if ticks <= 0 {
        0
    } else if ticks * 1000 / freq > u32::MAX {
        u32::MAX as int
    } else {
        ticks * 1000 / freq
    }
}

/// Ticks in units of 100 ns, as far as they can be computed.
pub open spec fn units_of(ticks: int, freq: int) -> int {
    if ticks <= 0 {
        0
    } else if ticks * 10_000_000 > i64::MAX {
        i64::MAX as int
    } else {
        ticks * 10_000_000 / freq
    }
}

pub fn qpc_to_ms(ticks: i64, freq: i64) -> (ms: u32)
    requires
        freq > 0,
        ticks * 1000 <= i64::MAX,
    ensures
        ms == ms_of(ticks as int, freq as int),
{
    if ticks <= 0 {
        return 0;
    }
    let scaled: i64 = ticks * 1_000;
    proof {
        assert(0 <= scaled as int / freq as int <= scaled) by (nonlinear_arith)
            requires
                scaled >= 0,
                freq > 0,
        ;
    }
    let ms: i64 = scaled / freq;
    if ms > u32::MAX as i64 {
        u32::MAX
    } else {
        ms as u32
    }
}

pub fn qpc_to_100ns(ticks: i64, freq: i64) -> (units: i64)
    requires
        freq > 0,
    ensures
        units == units_of(ticks as int, freq as int),
        units >= 0,
{
    if ticks <= 0 {
        return 0;
    }
    match ticks.checked_mul(10_000_000) {
        Some(scaled) => {
            proof {
                assert(0 <= scaled as int / freq as int <= scaled) by (nonlinear_arith)
                    requires
                        scaled >= 0,
                        freq > 0,
                ;
            }
            scaled / freq
        },
        None => i64::MAX,
    }
}

/// The deadline after waits at the times `nows`.
pub open spec fn deadline_after(deadline: int, nows: Seq<int>, period: int, threshold: int) -> int
    decreases nows.len(),
{
    if nows.len() == 0 {
        deadline
    } else {
        next_deadline(
            deadline_after(deadline, nows.drop_last(), period, threshold),
            nows.last(),
            period,
            threshold,
        )
    }
}

/// Whether none of the waits at the times `nows` starts over.
pub open spec fn keeps_pace(deadline: int, nows: Seq<int>, period: int, threshold: int) -> bool {
    forall|i: int|
        0 <= i < nows.len() ==> !resyncs(
            deadline_after(deadline, #[trigger] nows.take(i), period, threshold),
            nows[i],
            threshold,
        )
}

/// Hitches don't smear into drift: over any number of frames without a resync the
/// deadline moves on by exactly that many periods, however late each frame came, and
/// whether or not the waits lead.
pub proof fn lemma_no_drift(deadline: int, nows: Seq<int>, period: int, threshold: int)
    requires
        period > 0,
        keeps_pace(deadline, nows, period, threshold),
    ensures
        deadline_after(deadline, nows, period, threshold) == deadline + nows.len() * period,
    decreases nows.len(),
{
    if nows.len() > 0 {
        let rest = nows.drop_last();
        assert(nows.take(nows.len() - 1) =~= rest);
        assert forall|i: int| 0 <= i < rest.len() implies !resyncs(
            deadline_after(deadline, #[trigger] rest.take(i), period, threshold),
            rest[i],
            threshold,
        ) by {
            assert(nows.take(i) =~= rest.take(i));
        }
        lemma_no_drift(deadline, rest, period, threshold);
        assert(nows.len() * period == (nows.len() - 1) * period + period) by (nonlinear_arith);
    } else {
        assert(nows.len() * period == 0) by (nonlinear_arith)
            requires
                nows.len() == 0,
        ;
    }
}

/// A gap up to the threshold is absorbed, and beyond it the pacer starts over with a full
/// period from now on.
pub proof fn lemma_resync(deadline: int, now: int, period: int, threshold: int)
    requires
        period > 0,
        deadline != 0,
    ensures
        now <= deadline + threshold ==> next_deadline(deadline, now, period, threshold) == deadline
            + period,
        now > deadline + threshold ==> next_deadline(deadline, now, period, threshold) == now
            + period,
        next_deadline(0, now, period, threshold) == now + period,
{
}

/// The lead snaps into place within one frame of a resync: when the frame's work takes
/// less than the period without the lead, the next wait sleeps, until half a period ahead
/// of a deadline that lies one period behind the resync.
pub proof fn lemma_lead_snaps(now: int, period: int, threshold: int, work: int)
    requires
        period > 0,
        threshold >= 0,
        now >= 0,
        0 <= work < period - period / 2,
    ensures
        ({
            let deadline = next_deadline(0, now, period, threshold);
            &&& !resyncs(deadline, now + work, threshold)
            &&& now + work < wait_target(deadline, period, true)
            &&& wait_target(deadline, period, true) == now + period - period / 2
            &&& next_deadline(deadline, now + work, period, threshold) == now + 2 * period
        }),
{
}

/// A period is as many whole ticks as one frame has; no frames have none.
pub proof fn lemma_period(fps: u32, freq: i64)
    requires
        freq >= 0,
    ensures
        fps == 0 ==> period_of(fps, freq) == 0,
        fps > 0 ==> period_of(fps, freq) * fps <= freq < (period_of(fps, freq) + 1) * fps,
{
    if fps > 0 {
        let (f, n) = (freq as int, fps as int);
        let q = f / n;
        vstd::arithmetic::div_mod::lemma_fundamental_div_mod(f, n);
        assert(q * n <= f < (q + 1) * n) by (nonlinear_arith)
            requires
                n > 0,
                f == n * q + f % n,
                0 <= f % n < n,
        ;
    }
}

/// Pacing starts over with the first frame and with one that is more than the threshold
/// late, a period after it; any other frame is a period behind the one before. Without a
/// period there is nothing to pace.
pub proof fn lemma_next_deadline(deadline: int, now: int, period: int, threshold: int)
    ensures
        period == 0 ==> next_deadline(deadline, now, period, threshold) == deadline,
        period != 0 && (deadline == 0 || now - deadline > threshold) ==> next_deadline(
            deadline,
            now,
            period,
            threshold,
        ) == now + period,
        period != 0 && deadline != 0 && now - deadline <= threshold ==> next_deadline(
            deadline,
            now,
            period,
            threshold,
        ) == deadline + period,
        resyncs(deadline, now, threshold) <==> deadline == 0 || now - deadline > threshold,
{
}

/// A leading wait ends half a period before its deadline, rounded down to whole ticks, and
/// any other at it.
pub proof fn lemma_wait_target(deadline: int, period: int)
    requires
        period >= 0,
    ensures
        wait_target(deadline, period, false) == deadline,
        0 <= period - 2 * (deadline - wait_target(deadline, period, true)) <= 1,
{
}

/// The threshold is a twentieth of a second.
pub proof fn lemma_threshold(pacer: Pacer)
    requires
        pacer.wf(),
    ensures
        pacer.threshold() * 20 <= pacer.freq() < (pacer.threshold() + 1) * 20,
{
}

/// Ticks are converted to whole milliseconds, up to the largest count of them.
pub proof fn lemma_milliseconds(ticks: int, freq: int)
    requires
        freq > 0,
    ensures
        ticks <= 0 ==> ms_of(ticks, freq) == 0,
        0 <= ms_of(ticks, freq) <= u32::MAX,
        ticks > 0 ==> ms_of(ticks, freq) * freq <= ticks * 1000,
        ticks > 0 && ms_of(ticks, freq) < u32::MAX ==> ticks * 1000 < (ms_of(ticks, freq) + 1)
            * freq,
{
    if ticks > 0 {
        let t = ticks * 1000;
        let q = t / freq;
        vstd::arithmetic::div_mod::lemma_fundamental_div_mod(t, freq);
        assert(0 <= q && q * freq <= t < (q + 1) * freq && (q > u32::MAX ==> u32::MAX * freq <= t))
            by (nonlinear_arith)
            requires
                freq > 0,
                t > 0,
                q == t / freq,
                t == freq * q + t % freq,
                0 <= t % freq < freq,
        ;
    }
}

/// Ticks are converted to whole units of 100 nanoseconds, of which there are ten million in
/// a second, up to what can be computed.
pub proof fn lemma_timer_units(ticks: int, freq: int)
    requires
        freq > 0,
    ensures
        ticks <= 0 ==> units_of(ticks, freq) == 0,
        ticks * 10_000_000 > i64::MAX ==> units_of(ticks, freq) == i64::MAX,
        0 < ticks && ticks * 10_000_000 <= i64::MAX ==> units_of(ticks, freq) * freq <= ticks
            * 10_000_000 < (units_of(ticks, freq) + 1) * freq,
{
    if 0 < ticks && ticks * 10_000_000 <= i64::MAX {
        let t = ticks * 10_000_000;
        let q = t / freq;
        vstd::arithmetic::div_mod::lemma_fundamental_div_mod(t, freq);
        assert(q * freq <= t < (q + 1) * freq) by (nonlinear_arith)
            requires
                freq > 0,
                t == freq * q + t % freq,
                0 <= t % freq < freq,
        ;
    }
}

/// The rate is the policy's, whichever it is.
pub proof fn lemma_policy_rate(target_fps: u32)
    ensures
        (PacingPolicy::LiveInput { target_fps }).fps() == target_fps,
        (PacingPolicy::InternalCadence { target_fps }).fps() == target_fps,
{
}

/// How long before its end a wait gives up sleeping, and from when on one starts over.
pub proof fn lemma_pacer_margins()
    ensures
        SAFETY_MARGIN_100NS == 2_000,
        RESYNC_THRESHOLD_MS == 50,
{
}

} // verus!
