//! The render session: what the device hooks do around the calls that they forward.
//!
//! One value holds everything that the hooks share. A hook that makes outside calls is
//! split into what comes before them and what comes after.

use crate::config::{FramerateCfg, RefreshRateMode};
use crate::d3d::{is_ok, Format, HResult, PresentParameters, D3DERR_INVALIDCALL};
use crate::d3d9::{
    checked_adapter_format, finish_create_device, resource_request, rewrite_behavior_flags,
    wants_mode_check, AdapterSnapshot, Attempt, BackBufferFormat, CreateDeviceEnd, LadderCtx,
    PresentChange, PresentLog, PresentPolicy, SessionPolicy,
};
use crate::ladder::LadderEnd;
use crate::nonzero::NonZeroUsize;
use crate::pacer::{Pacer, PacingPolicy, Wait};
use crate::replay::{HeldKeys, ModeLatch, ReplayMode};
use crate::screenshot::PendingCapture;
use crate::session::{PinChange, Session};
use crate::thread::{Claim, MainThread, MainToken};
use crate::{d3d, d3d9, nonzero, pacer, replay};
use vstd::prelude::*;

verus! {

/// Everything that the hooks share.
pub struct RenderState {
    pub main: MainThread,
    pub session: Session,
    pub policy: SessionPolicy,
    pub pending: PendingCapture,
    pub format: BackBufferFormat,
    pub present: PresentLog,
    pub mode: ModeLatch,
    /// None when the game is left synced to the display.
    pub pacer: Option<Pacer>,
}

/// How the creation of the game's `IDirect3D9Ex` ended.
pub enum CreatedD3d9 {
    /// The runtime gave no object.
    Failed,
    /// Another thread holds the render thread's claim: the object is handed out as it is,
    /// and its devices are created as the runtime does.
    OffThread(NonZeroUsize),
    /// The object is the game's; its vtable is to be hooked.
    Hooked {
        d3d9: NonZeroUsize,
        /// Another policy was in force before.
        replaced: bool,
        pin: PinChange,
    },
}

/// What a hook does with a call on an object that is not the game's, on the render thread.
#[derive(Clone, Copy, Debug, PartialEq, Eq, Structural)]
pub enum Bypass {
    /// There is no object: the call is refused with an invalid-call error.
    InvalidCall,
    /// The call goes to the original untouched. `thread_miss` says that it is the game's
    /// object all the same, driven from another thread.
    PassThrough { thread_miss: bool },
}

/// A device creation that goes through the attempts.
pub struct CreateBegin {
    pub tok: MainToken,
    /// The behaviour flags to create the device with.
    pub flags: u32,
    /// The outgoing device's pin, which is released.
    pub release: Option<NonZeroUsize>,
    /// A capture that waited for the outgoing device was dropped.
    pub dropped_capture: bool,
}

/// A reset that goes through the attempts.
pub struct ResetBegin {
    pub tok: MainToken,
    pub device: NonZeroUsize,
    /// A waiting capture was dropped.
    pub dropped_capture: bool,
}

/// How many frames the runtime may queue ahead of the display on a device that came
/// alive.
pub const MAX_FRAME_LATENCY: u32 = 1;

/// The scheduling priority of such a device.
pub const GPU_THREAD_PRIORITY: i32 = 7;

/// What follows a device that came alive.
#[derive(Clone, Copy, Debug, PartialEq, Eq, Structural)]
pub struct DeviceAlive {
    pub device: NonZeroUsize,
    /// The references to take and to give back.
    pub pin: PinChange,
    /// The adapter's mode is to be sampled again.
    pub check_mode: bool,
}

/// A present through the game's device.
pub struct PresentBegin {
    /// A change of pacing, which was applied.
    pub change: Option<(ReplayMode, PacingPolicy)>,
    /// How to wait; none without a pacer.
    pub wait: Option<Wait>,
    /// The file to capture the frame to.
    pub capture: Option<Vec<u8>>,
}

impl RenderState {
    /// Whether `tid` is the render thread.
    pub open spec fn on_render_thread(&self, tid: u32) -> bool {
        self.main@ != 0 && self.main@ == tid
    }

    /// Starts with nothing recorded.
    pub fn new(pacer: Option<Pacer>) -> (state: RenderState)
        ensures
            state.session.wf(),
            state.main@ == 0,
            state.session.d3d9() == 0,
            state.session.device() == 0,
            state.session.d3d9_pin() is None,
            state.session.device_pin() is None,
            state.policy@ is None,
            state.pending.pending() is None,
            state.format@ == d3d::D3DFMT_UNKNOWN,
            state.present == (PresentLog { count: 0, hr: 0, since_frame: 0 }),
            state.mode@ == ReplayMode::Normal,
            state.pacer == pacer,
    {
        RenderState {
            main: MainThread::new(),
            session: Session::new(),
            policy: SessionPolicy::new(),
            pending: PendingCapture::new(),
            format: BackBufferFormat::new(),
            present: PresentLog::new(),
            mode: ModeLatch::new(),
            pacer,
        }
    }

    /// Takes the object that the runtime created for the game (0 for none), on thread
    /// `tid`. The first thread to get here is the render thread.
    pub fn create_hooked_d3d9_with(&mut self, tid: u32, created: usize, policy: PresentPolicy) -> (res:
        CreatedD3d9)
        requires
            tid != 0,
            old(self).session.wf(),
        ensures
            final(self).session.wf(),
            final(self).pending == old(self).pending,
            final(self).format == old(self).format,
            final(self).present == old(self).present,
            final(self).mode == old(self).mode,
            final(self).pacer == old(self).pacer,
            final(self).session.device() == old(self).session.device(),
            final(self).session.device_pin() == old(self).session.device_pin(),
            match res {
                CreatedD3d9::Failed => created == 0 && *final(self) == *old(self),
                CreatedD3d9::OffThread(p) => {
                    &&& created != 0 && p@ == created
                    &&& old(self).main@ != 0 && old(self).main@ != tid
                    &&& final(self).main@ == old(self).main@
                    &&& final(self).session == old(self).session
                    &&& final(self).policy == old(self).policy
                },
                CreatedD3d9::Hooked { d3d9, replaced, pin } => {
                    &&& created != 0 && d3d9@ == created
                    &&& old(self).main@ == 0 || old(self).main@ == tid
                    &&& final(self).main@ == tid
                    &&& final(self).policy@ == Some(policy)
                    &&& replaced == (old(self).policy@ is Some && old(self).policy@->0 != policy)
                    &&& final(self).session.d3d9() == created
                    &&& pin.add_ref == (if old(self).session.d3d9() == created {
                        None
                    } else {
                        Some(d3d9)
                    })
                    &&& pin.release == (if old(self).session.d3d9() == created {
                        None
                    } else {
                        old(self).session.d3d9_pin()
                    })
                },
            },
    {
        let d3d9 = match NonZeroUsize::new(created) {
            Some(p) => p,
            None => {
                return CreatedD3d9::Failed;
            },
        };
        let tok = match self.main.claim(tid) {
            Claim::Claimed(tok) => tok,
            Claim::Confirmed(tok) => tok,
            Claim::Refused { .. } => {
                return CreatedD3d9::OffThread(d3d9);
            },
        };
        let replaced = self.policy.record(policy);
        let pin = self.session.record_d3d9(&tok, d3d9);
        CreatedD3d9::Hooked { d3d9, replaced, pin }
    }

    /// The configuration of a sequence of attempts: the session's policy, and whether a
    /// pacer controls the frame timing.
    pub fn resolve_ladder(
        &self,
        snapshot: AdapterSnapshot,
        refresh_mode: RefreshRateMode,
        consumes_display_mode: bool,
    ) -> (ctx: LadderCtx)
        ensures
            ctx.snapshot == snapshot,
            ctx.policy == (match self.policy@ {
                Some(p) => p,
                None => d3d9::direct_policy(),
            }),
            ctx.controls_timing == (self.pacer is Some),
            ctx.refresh_mode == refresh_mode,
            ctx.consumes_display_mode == consumes_display_mode,
    {
        LadderCtx {
            snapshot,
            policy: self.policy.get(),
            controls_timing: self.pacer.is_some(),
            refresh_mode,
            consumes_display_mode,
        }
    }

    /// The first part of a device creation on `this` from thread `tid`: what comes before
    /// the attempts. The outgoing device's pin is released up front, for it can be enough
    /// for its replacement to be refused, but the device stays recorded. A capture that
    /// waited for it is dropped.
    pub fn hook_create_device(&mut self, tid: u32, this: usize, behavior_flags: u32) -> (res: Result<
        CreateBegin,
        Bypass,
    >)
        requires
            old(self).session.wf(),
        ensures
            final(self).session.wf(),
            match res {
                Err(Bypass::InvalidCall) => this == 0 && *final(self) == *old(self),
                Err(Bypass::PassThrough { thread_miss }) => {
                    &&& this != 0
                    &&& this != old(self).session.d3d9() || !old(self).on_render_thread(tid)
                    &&& thread_miss == (this == old(self).session.d3d9())
                    &&& *final(self) == *old(self)
                },
                Ok(begin) => {
                    &&& this != 0 && this == old(self).session.d3d9() && old(self).on_render_thread(
                        tid,
                    )
                    &&& begin.tok@ == tid
                    &&& begin.flags == behavior_flags | d3d::D3DCREATE_MULTITHREADED
                    &&& begin.release == old(self).session.device_pin()
                    &&& begin.dropped_capture == (old(self).pending.pending() is Some)
                    &&& final(self).session.device() == old(self).session.device()
                    &&& final(self).session.device_pin() is None
                    &&& final(self).session.d3d9() == old(self).session.d3d9()
                    &&& final(self).session.d3d9_pin() == old(self).session.d3d9_pin()
                    &&& final(self).pending.pending() is None
                    &&& final(self).main == old(self).main
                    &&& final(self).policy == old(self).policy
                    &&& final(self).format == old(self).format
                    &&& final(self).present == old(self).present
                    &&& final(self).mode == old(self).mode
                    &&& final(self).pacer == old(self).pacer
                },
            },
    {
        if this == 0 {
            return Err(Bypass::InvalidCall);
        }
        let tok = match self.session.gate_d3d9(this, &self.main, tid) {
            Some(tok) => tok,
            None => {
                return Err(
                    Bypass::PassThrough { thread_miss: self.session.is_game_d3d9(this) },
                );
            },
        };
        let change = self.session.device_creating(&tok);
        let dropped_capture = self.pending.drop_pending();
        Ok(
            CreateBegin {
                tok,
                flags: rewrite_behavior_flags(behavior_flags),
                release: change.release,
                dropped_capture,
            },
        )
    }

    /// The last part of a device creation: what comes after the attempts, which ended with
    /// `end` and gave `device`. A device that came alive is recorded and pinned. A success
    /// without a device is a failure to the game, which gets its own request back.
    pub fn finish_device(
        &mut self,
        tok: &MainToken,
        end: LadderEnd,
        device: usize,
        requested: Option<PresentParameters>,
        desktop: Option<d3d::DisplayModeEx>,
    ) -> (res: (CreateDeviceEnd, Option<DeviceAlive>))
        requires
            old(self).session.wf(),
        ensures
            final(self).session.wf(),
            final(self).main == old(self).main,
            final(self).policy == old(self).policy,
            final(self).pending == old(self).pending,
            final(self).present == old(self).present,
            final(self).mode == old(self).mode,
            final(self).pacer == old(self).pacer,
            final(self).session.d3d9() == old(self).session.d3d9(),
            final(self).session.d3d9_pin() == old(self).session.d3d9_pin(),
            res.0 == (if !d3d::succeeded(end.hr) {
                CreateDeviceEnd { hr: end.hr, device: 0, restore: end.restore }
            } else if device == 0 {
                CreateDeviceEnd { hr: D3DERR_INVALIDCALL, device: 0, restore: requested }
            } else {
                CreateDeviceEnd { hr: end.hr, device, restore: end.restore }
            }),
            match res.1 {
                None => {
                    &&& !d3d::succeeded(end.hr) || device == 0
                    &&& final(self).session == old(self).session
                    &&& final(self).format == old(self).format
                },
                Some(alive) => {
                    &&& d3d::succeeded(end.hr) && device != 0
                    &&& device_recorded(*old(self), *final(self), alive, device, end.attempt, desktop)
                },
            },
    {
        let done = finish_create_device(end.hr, device, end.restore, requested);
        if !is_ok(end.hr) {
            return (done, None);
        }
        match NonZeroUsize::new(device) {
            None => (done, None),
            Some(dev) => {
                let alive = self.post_device_alive(tok, dev, end.attempt, desktop);
                (done, Some(alive))
            },
        }
    }

    /// Records and pins a device after a successful creation or reset.
    fn post_device_alive(
        &mut self,
        tok: &MainToken,
        dev: NonZeroUsize,
        attempt: Option<Attempt>,
        desktop: Option<d3d::DisplayModeEx>,
    ) -> (alive: DeviceAlive)
        requires
            old(self).session.wf(),
        ensures
            final(self).session.wf(),
            final(self).main == old(self).main,
            final(self).policy == old(self).policy,
            final(self).pending == old(self).pending,
            final(self).present == old(self).present,
            final(self).mode == old(self).mode,
            final(self).pacer == old(self).pacer,
            final(self).session.d3d9() == old(self).session.d3d9(),
            final(self).session.d3d9_pin() == old(self).session.d3d9_pin(),
            device_recorded(*old(self), *final(self), alive, dev@, attempt, desktop),
    {
        let pin = self.session.record_device(tok, dev);
        self.format.record_back_buffer_format(attempt);
        DeviceAlive { device: dev, pin, check_mode: wants_mode_check(desktop, attempt) }
    }

    /// The first part of a reset of `this` from thread `tid`. A waiting capture is dropped.
    pub fn hook_reset(&mut self, tid: u32, this: usize) -> (res: Result<ResetBegin, Bypass>)
        ensures
            final(self).session == old(self).session,
            final(self).main == old(self).main,
            final(self).policy == old(self).policy,
            final(self).format == old(self).format,
            final(self).present == old(self).present,
            final(self).mode == old(self).mode,
            final(self).pacer == old(self).pacer,
            match res {
                Err(Bypass::InvalidCall) => this == 0 && *final(self) == *old(self),
                Err(Bypass::PassThrough { thread_miss }) => {
                    &&& this != 0
                    &&& this != old(self).session.device() || !old(self).on_render_thread(tid)
                    &&& thread_miss == (this == old(self).session.device())
                    &&& *final(self) == *old(self)
                },
                Ok(begin) => {
                    &&& this != 0 && this == old(self).session.device() && old(
                        self,
                    ).on_render_thread(tid)
                    &&& begin.tok@ == tid
                    &&& begin.device@ == this
                    &&& begin.dropped_capture == (old(self).pending.pending() is Some)
                    &&& final(self).pending.pending() is None
                },
            },
    {
        if this == 0 {
            return Err(Bypass::InvalidCall);
        }
        let (tok, device) = match self.session.gate_device(this, &self.main, tid) {
            Some(gate) => gate,
            None => {
                return Err(
                    Bypass::PassThrough { thread_miss: self.session.is_game_device(this) },
                );
            },
        };
        let dropped_capture = self.pending.drop_pending();
        Ok(ResetBegin { tok, device, dropped_capture })
    }

    /// The last part of a reset whose attempts ended with `end`. The device is the same
    /// object, and is recorded again.
    pub fn finish_reset(
        &mut self,
        begin: &ResetBegin,
        end: LadderEnd,
        desktop: Option<d3d::DisplayModeEx>,
    ) -> (res: Option<DeviceAlive>)
        requires
            old(self).session.wf(),
        ensures
            final(self).session.wf(),
            final(self).main == old(self).main,
            final(self).policy == old(self).policy,
            final(self).pending == old(self).pending,
            final(self).present == old(self).present,
            final(self).mode == old(self).mode,
            final(self).pacer == old(self).pacer,
            final(self).session.d3d9() == old(self).session.d3d9(),
            final(self).session.d3d9_pin() == old(self).session.d3d9_pin(),
            match res {
                None => {
                    &&& !d3d::succeeded(end.hr)
                    &&& final(self).session == old(self).session
                    &&& final(self).format == old(self).format
                },
                Some(alive) => {
                    &&& d3d::succeeded(end.hr)
                    &&& device_recorded(
                        *old(self),
                        *final(self),
                        alive,
                        begin.device@,
                        end.attempt,
                        desktop,
                    )
                },
            },
    {
        if !is_ok(end.hr) {
            return None;
        }
        Some(self.post_device_alive(&begin.tok, begin.device, end.attempt, desktop))
    }

    /// The first part of a present on `this` from thread `tid` at the time `now`: a change
    /// of replay mode is applied to the pacer, the pacer decides on the wait, a waiting
    /// capture is taken, and the frame is counted. Anything but the game's device on the
    /// render thread is passed through.
    pub fn hook_present(
        &mut self,
        tid: u32,
        this: usize,
        now: i64,
        keys: Option<HeldKeys>,
        framerate: &FramerateCfg,
    ) -> (res: Option<PresentBegin>)
        requires
            old(self).pacer is Some ==> paces(old(self).pacer->0, now as int),
        ensures
            final(self).session == old(self).session,
            final(self).main == old(self).main,
            final(self).policy == old(self).policy,
            final(self).format == old(self).format,
            ({
                let gated = this != 0 && this == old(self).session.device() && old(
                    self,
                ).on_render_thread(tid);
                match res {
                    None => !gated && *final(self) == *old(self),
                    Some(begin) => {
                        &&& gated
                        &&& final(self).present == (PresentLog {
                            count: ((old(self).present.count + 1) % 0x1_0000_0000) as u32,
                            ..old(self).present
                        })
                        &&& captures(*old(self), *final(self), begin.capture, this)
                        &&& paced(*old(self), *final(self), begin, now as int, keys, *framerate)
                    },
                }
            }),
    {
        let (tok, device) = match self.session.gate_device(this, &self.main, tid) {
            Some(gate) => gate,
            None => {
                return None;
            },
        };
        let mut change: Option<(ReplayMode, PacingPolicy)> = None;
        let mut wait: Option<Wait> = None;
        let mut slot: Option<Pacer> = self.pacer.take();
        if let Some(p) = slot {
            let mut p = p;
            change = self.mode.policy_change(&tok, keys, framerate);
            if let Some((_, policy)) = change {
                p.apply_policy(&tok, policy);
            }
            wait = Some(p.wait(&tok, now));
            slot = Some(p);
        }
        self.pacer = slot;
        let pinned = self.session.pinned_device(&tok);
        proof {
            if let Some(d) = pinned {
                nonzero::lemma_same(d, device);
            }
        }
        let capture = self.pending.on_pre_present(pinned, device);
        self.present.begin();
        Some(PresentBegin { change, wait, capture })
    }

    /// The last part of a present: takes its result, and gives the change if it differs
    /// from the previous one.
    pub fn finish_present(&mut self, hr: HResult) -> (change: Option<PresentChange>)
        ensures
            final(self).session == old(self).session,
            final(self).main == old(self).main,
            final(self).policy == old(self).policy,
            final(self).pending == old(self).pending,
            final(self).format == old(self).format,
            final(self).mode == old(self).mode,
            final(self).pacer == old(self).pacer,
            final(self).present.count == old(self).present.count,
            match change {
                None => hr == old(self).present.hr && final(self).present == old(self).present,
                Some(change) => {
                    &&& hr != old(self).present.hr
                    &&& change.hr == hr && change.prev_hr == old(self).present.hr
                    &&& change.frame == old(self).present.count
                    &&& change.frames_in_prev == (old(self).present.count - old(
                        self,
                    ).present.since_frame) % 0x1_0000_0000
                    &&& final(self).present.hr == hr
                    &&& final(self).present.since_frame == old(self).present.count
                },
            },
    {
        self.present.record(hr)
    }

    /// The adapter format that a format check on `this` is forwarded with.
    pub fn hook_check_device_format(&self, this: usize, adapter_format: Format) -> (res: Format)
        ensures
            res == (if this != 0 && this == self.session.d3d9() && adapter_format
                == d3d::D3DFMT_A8R8G8B8 {
                d3d::D3DFMT_X8R8G8B8
            } else {
                adapter_format
            }),
    {
        checked_adapter_format(self.session.is_game_d3d9(this), adapter_format)
    }

    /// The pool and usage that the creation of a texture on `this` is forwarded with.
    pub fn hook_create_texture(&self, this: usize, pool: u32, usage: u32) -> (res: (u32, u32))
        ensures
            res == (if this != 0 && this == self.session.device() {
                d3d9::translated_pool(pool, usage)
            } else {
                (pool, usage)
            }),
    {
        resource_request(self.session.is_game_device(this), pool, usage)
    }

    /// The pool and usage that the creation of a vertex buffer on `this` is forwarded with.
    pub fn hook_create_vertex_buffer(&self, this: usize, pool: u32, usage: u32) -> (res: (u32, u32))
        ensures
            res == (if this != 0 && this == self.session.device() {
                d3d9::translated_pool(pool, usage)
            } else {
                (pool, usage)
            }),
    {
        resource_request(self.session.is_game_device(this), pool, usage)
    }
}

/// Whether `device` became the recorded and pinned device, and its back buffer format is
/// the attempt's, where that is known.
pub open spec fn device_recorded(
    before: RenderState,
    after: RenderState,
    alive: DeviceAlive,
    device: usize,
    attempt: Option<Attempt>,
    desktop: Option<d3d::DisplayModeEx>,
) -> bool {
    let pinned = before.session.device_pin() is Some && before.session.device_pin()->0@ == device;
    &&& alive.device@ == device
    &&& after.session.device() == device
    &&& after.session.device_pin() is Some
    &&& alive.pin.add_ref == (if pinned {
        None
    } else {
        Some(alive.device)
    })
    &&& alive.pin.release == (if pinned {
        None
    } else {
        before.session.device_pin()
    })
    &&& after.format@ == (if attempt is Some && attempt->0.pp.back_buffer_format
        != d3d::D3DFMT_UNKNOWN {
        attempt->0.pp.back_buffer_format
    } else {
        before.format@
    })
    &&& alive.check_mode == (desktop is Some && attempt is Some && !d3d9::matches_desktop(
        attempt->0.pp,
        desktop->0,
    ))
}

/// Whether the pacer's arithmetic stays in range for a wait at `now`, whatever policy is
/// applied first.
pub open spec fn paces(p: Pacer, now: int) -> bool {
    &&& p.wf()
    &&& 0 <= now
    &&& now + p.freq() <= i64::MAX
    &&& p.deadline() + p.freq() <= i64::MAX
}

/// Whether a waiting capture was taken, which is so when the device is pinned.
pub open spec fn captures(
    before: RenderState,
    after: RenderState,
    capture: Option<Vec<u8>>,
    device: usize,
) -> bool {
    let pinned = before.session.device_pin() is Some && before.session.device_pin()->0@ == device;
    match capture {
        Some(path) => {
            &&& pinned
            &&& before.pending.pending() == Some(path@)
            &&& after.pending.pending() is None
        },
        None => {
            &&& !pinned || before.pending.pending() is None
            &&& after.pending.pending() == (if pinned {
                None
            } else {
                before.pending.pending()
            })
        },
    }
}

/// What a present does to the pacing: without a pacer nothing; else a change of mode is
/// applied before the wait. The policy in force decides whether the wait ends early.
pub open spec fn paced(
    before: RenderState,
    after: RenderState,
    begin: PresentBegin,
    now: int,
    keys: Option<HeldKeys>,
    framerate: FramerateCfg,
) -> bool {
    if before.pacer is None {
        &&& begin.change is None && begin.wait is None
        &&& after.pacer is None
        &&& after.mode == before.mode
    } else {
        let mode = replay::mode_of(keys);
        let policy = replay::policy_of(mode, framerate);
        let changed = before.mode@ != mode;
        let p = before.pacer->0;
        let period = if changed {
            pacer::period_of(policy.fps(), p.freq() as i64)
        } else {
            p.period()
        };
        let deadline = if changed {
            0
        } else {
            p.deadline()
        };
        let lead = if changed {
            policy is LiveInput
        } else {
            p.leads()
        };
        let target = pacer::wait_target(deadline, period, lead);
        &&& after.mode@ == mode
        &&& begin.change == (if changed {
            Some((mode, policy))
        } else {
            None
        })
        &&& after.pacer is Some
        &&& after.pacer->0.period() == period
        &&& after.pacer->0.wf()
        &&& after.pacer->0.freq() == p.freq()
        &&& after.pacer->0.threshold() == p.threshold()
        &&& after.pacer->0.timer() == p.timer()
        &&& after.pacer->0.leads() == lead
        &&& after.pacer->0.deadline() == pacer::next_deadline(deadline, now, period, p.threshold())
        &&& begin.wait == Some(
            if period == 0 {
                Wait::Unpaced
            } else if pacer::resyncs(deadline, now, p.threshold()) {
                Wait::Resynced
            } else if now < target {
                Wait::SleepUntil(target as i64)
            } else {
                Wait::Late
            },
        )
    }
}

/// A change of replay mode never waits for a stale deadline: the present that sees it
/// starts over, or pacing is off.
pub proof fn lemma_mode_change_resyncs(
    before: RenderState,
    after: RenderState,
    begin: PresentBegin,
    now: int,
    keys: Option<HeldKeys>,
    framerate: FramerateCfg,
)
    requires
        paced(before, after, begin, now, keys, framerate),
        before.pacer is Some,
        before.mode@ != replay::mode_of(keys),
    ensures
        begin.wait == Some(Wait::Resynced) || begin.wait == Some(Wait::Unpaced),
        after.mode@ == replay::mode_of(keys),
{
}

/// Live play waits for half a period before the deadline and a replay that is skipped or
/// slowed for the deadline itself: once the lead of the pacer agrees with the replay mode,
/// it does so after every present, and a change of mode brings it about.
pub proof fn lemma_lead_follows_mode(
    before: RenderState,
    after: RenderState,
    begin: PresentBegin,
    now: int,
    keys: Option<HeldKeys>,
    framerate: FramerateCfg,
)
    requires
        paced(before, after, begin, now, keys, framerate),
        before.pacer is Some,
        before.pacer->0.wf(),
        before.mode@ != replay::mode_of(keys) || before.pacer->0.leads() == (before.mode@
            == ReplayMode::Normal),
    ensures
        after.pacer is Some,
        after.pacer->0.leads() == (after.mode@ == ReplayMode::Normal),
        begin.wait is Some,
        match begin.wait->0 {
            Wait::SleepUntil(t) => t == before.pacer->0.deadline() - (if after.mode@
                == ReplayMode::Normal {
                before.pacer->0.period() / 2
            } else {
                0
            }),
            _ => true,
        },
{
}

/// A device that came alive is the one that was created, is the recorded one from then on,
/// and is pinned. A reference is taken on it and the last pin given back, unless it was the
/// pinned one already. A back buffer format that is known replaces the last one, and the mode
/// is sampled when the attempt is known to differ from the desktop.
pub proof fn lemma_device_recorded(
    before: RenderState,
    after: RenderState,
    alive: DeviceAlive,
    device: usize,
    attempt: Option<Attempt>,
    desktop: Option<d3d::DisplayModeEx>,
)
    requires
        device_recorded(before, after, alive, device, attempt, desktop),
    ensures
        ({
            let last = before.session.device_pin();
            let kept = last is Some && last->0@ == device;
            &&& alive.device@ == device && after.session.device() == device
            &&& after.session.device_pin() is Some
            &&& alive.pin.add_ref is Some <==> !kept
            &&& alive.pin.add_ref is Some ==> alive.pin.add_ref->0@ == device
            &&& kept ==> alive.pin.release is None
            &&& !kept ==> alive.pin.release == last
            &&& attempt is None ==> after.format@ == before.format@ && !alive.check_mode
            &&& attempt is Some && attempt->0.pp.back_buffer_format == 0 ==> after.format@
                == before.format@
            &&& attempt is Some && attempt->0.pp.back_buffer_format != 0 ==> after.format@
                == attempt->0.pp.back_buffer_format
            &&& desktop is None ==> !alive.check_mode
            &&& attempt is Some && desktop is Some ==> (alive.check_mode
                <==> !d3d9::matches_desktop(attempt->0.pp, desktop->0))
        }),
{
}

/// A capture is taken at most once: by the first present of the pinned device, which gets its
/// path. A present of another device leaves it waiting.
pub proof fn lemma_capture_taken_once(
    before: RenderState,
    after: RenderState,
    capture: Option<Vec<u8>>,
    device: usize,
)
    requires
        captures(before, after, capture, device),
    ensures
        ({
            let last = before.session.device_pin();
            let pinned = last is Some && last->0@ == device;
            let waiting = before.pending.pending();
            &&& capture is Some <==> pinned && waiting is Some
            &&& capture is Some ==> capture->0@ == waiting->0
            &&& pinned ==> after.pending.pending() is None
            &&& !pinned ==> after.pending.pending() == waiting
        }),
{
}

/// A present waits only with a pacer, and goes by the rate of the mode in force: a change of
/// mode brings its own rate and starts over, and otherwise the schedule goes on with what it
/// had. The pacer's other settings stay what they are.
pub proof fn lemma_paced(
    before: RenderState,
    after: RenderState,
    begin: PresentBegin,
    now: int,
    keys: Option<HeldKeys>,
    framerate: FramerateCfg,
)
    requires
        paced(before, after, begin, now, keys, framerate),
        before.pacer is Some ==> before.pacer->0.wf(),
    ensures
        before.pacer is None <==> after.pacer is None,
        before.pacer is None <==> begin.wait is None,
        before.pacer is None ==> begin.change is None && after.mode == before.mode,
        before.pacer is Some ==> {
            let (p, q) = (before.pacer->0, after.pacer->0);
            let mode = replay::mode_of(keys);
            let policy = replay::policy_of(mode, framerate);
            let changed = before.mode@ != mode;
            &&& after.mode@ == mode
            &&& begin.change is Some <==> changed
            &&& changed ==> begin.change == Some((mode, policy))
            &&& changed ==> q.period() == pacer::period_of(policy.fps(), p.freq() as i64)
            &&& changed ==> (q.leads() <==> mode is Normal)
            &&& !changed ==> q.period() == p.period() && q.leads() == p.leads()
            &&& q.wf() && q.freq() == p.freq() && q.threshold() == p.threshold() && q.timer()
                == p.timer()
            &&& begin.wait == Some(Wait::Unpaced) <==> q.period() == 0
            &&& !changed ==> q.deadline() == pacer::next_deadline(
                p.deadline(),
                now,
                p.period(),
                p.threshold(),
            )
            &&& changed ==> q.deadline() == pacer::next_deadline(
                0,
                now,
                q.period(),
                p.threshold(),
            )
            &&& begin.wait == Some(Wait::Resynced) <==> q.period() != 0 && pacer::resyncs(
                if changed {
                    0
                } else {
                    p.deadline()
                },
                now,
                p.threshold(),
            )
            &&& begin.wait->0 is SleepUntil ==> !changed && begin.wait->0->SleepUntil_0 > now
            &&& begin.wait->0 is SleepUntil ==> begin.wait->0->SleepUntil_0
                == pacer::wait_target(p.deadline(), p.period(), p.leads())
        },
{
}

/// A thread is the render thread when it made the claim.
pub proof fn lemma_render_thread(state: RenderState, tid: u32)
    ensures
        state.on_render_thread(tid) <==> tid != 0 && state.main@ == tid,
        MAX_FRAME_LATENCY == 1,
        GPU_THREAD_PRIORITY == 7,
{
}

/// A pacer can be waited on at a time that is not negative, and from which another second
/// still fits.
pub proof fn lemma_paces(p: Pacer, now: int)
    requires
        p.wf(),
    ensures
        paces(p, now) <==> 0 <= now && now + p.freq() <= 0x7fff_ffff_ffff_ffff && p.deadline()
            + p.freq() <= 0x7fff_ffff_ffff_ffff,
{
}

} // verus!
