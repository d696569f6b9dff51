//! Pumps a paused loader from a destructor that waits for it.
//!
//! The destructor joins a worker thread that can only finish while the animation driver
//! runs, which the destructor's caller has paused. The hook at the destructor's entry
//! drives the animations until the worker has exited, then resumes the destructor.

use crate::bytes;
use crate::patches;
use crate::patches::PatchSite;
use crate::text::owned;
use vstd::prelude::*;

verus! {

pub const WAIT_OBJECT_0: u32 = 0;

pub const WAIT_TIMEOUT: u32 = 0x102;

/// The destructor's calling convention and prologue, with the address of the trampoline
/// that replays the prologue.
#[derive(Clone, Copy, Debug, PartialEq, Eq, Structural)]
#[non_exhaustive]
pub enum Hook {
    /// Frame prologue `push ebp; mov ebp, esp; push -1`; `this` in ECX.
    EbpFrameThiscall(u32),
    /// The same, with one stack argument that the destructor cleans up.
    EbpFrameThiscallRet4(u32),
    /// Frame prologue; `this` on the stack.
    EbpFrameStdcall(u32),
    /// Prologue `push -1; push handler`; `this` on the stack.
    FpoStdcall { trampoline: u32, seh_handler: u32 },
}

/// The entry point that a destructor is redirected to.
#[derive(Clone, Copy, Debug, PartialEq, Eq, Structural)]
pub enum Entry {
    Thiscall,
    ThiscallRet4,
    Stdcall,
}

/// Per-game parameters. Addresses are absolute in the host executable.
pub struct Config {
    /// Address of the destructor's first byte.
    pub dtor_addr: u32,
    pub hook: Hook,
    /// Address of the animation driver.
    pub anim_driver_addr: u32,
    /// Offset of the worker's handle in the destructor's object.
    pub loader_handle_offset: u32,
    /// What the destructor is called in diagnostics.
    pub dtor_label: &'static str,
}

/// The addresses of the three entry points.
#[derive(Clone, Copy, Debug, PartialEq, Eq, Structural)]
pub struct Entries {
    pub thiscall: u32,
    pub thiscall_ret4: u32,
    pub stdcall: u32,
}

/// The frame prologue.
pub open spec fn frame_prologue() -> Seq<u8> {
    seq![0x55u8, 0x8bu8, 0xecu8, 0x6au8, 0xffu8]
}

/// The prologue `push -1; push handler`.
pub open spec fn seh_prologue(seh_handler: u32) -> Seq<u8> {
    seq![0x6au8, 0xffu8, 0x68u8] + bytes::le32(seh_handler)
}

/// Encodes the prologue `push -1; push handler`.
pub fn fpo_seh_prologue(seh_handler: u32) -> (prologue: [u8; 7])
    ensures
        prologue@ == seh_prologue(seh_handler),
{
    let prologue: [u8; 7] = [
        0x6a,
        0xff,
        0x68,
        (seh_handler % 0x100) as u8,
        (seh_handler / 0x100 % 0x100) as u8,
        (seh_handler / 0x1_0000 % 0x100) as u8,
        (seh_handler / 0x100_0000) as u8,
    ];
    assert(prologue@ =~= seh_prologue(seh_handler));
    prologue
}

impl Hook {
    pub open spec fn entry_of(self) -> Entry {
        match self {
            Hook::EbpFrameThiscall(_) => Entry::Thiscall,
            Hook::EbpFrameThiscallRet4(_) => Entry::ThiscallRet4,
            Hook::EbpFrameStdcall(_) | Hook::FpoStdcall { .. } => Entry::Stdcall,
        }
    }

    /// The bytes that stand at the destructor's entry.
    pub open spec fn prologue(self) -> Seq<u8> {
        match self {
            Hook::FpoStdcall { seh_handler, .. } => seh_prologue(seh_handler),
            _ => frame_prologue(),
        }
    }

    /// The address of the trampoline.
    pub open spec fn resume_at(self) -> u32 {
        match self {
            Hook::EbpFrameThiscall(t) => t,
            Hook::EbpFrameThiscallRet4(t) => t,
            Hook::EbpFrameStdcall(t) => t,
            Hook::FpoStdcall { trampoline, .. } => trampoline,
        }
    }

    /// The entry point for this convention.
    pub fn entry(self) -> (entry: Entry)
        ensures
            entry == self.entry_of(),
    {
        match self {
            Hook::EbpFrameThiscall(_) => Entry::Thiscall,
            Hook::EbpFrameThiscallRet4(_) => Entry::ThiscallRet4,
            Hook::EbpFrameStdcall(_) | Hook::FpoStdcall { .. } => Entry::Stdcall,
        }
    }

    /// The trampoline's address, and the extra argument that it is called with.
    pub fn trampoline(self) -> (call: (u32, Option<u32>))
        ensures
            call.0 == self.resume_at(),
            call.1 == (if self is EbpFrameThiscallRet4 {
                Some(0u32)
            } else {
                None
            }),
    {
        match self {
            Hook::EbpFrameThiscall(t) => (t, None),
            Hook::EbpFrameThiscallRet4(t) => (t, Some(0)),
            Hook::EbpFrameStdcall(t) => (t, None),
            Hook::FpoStdcall { trampoline, .. } => (trampoline, None),
        }
    }
}

impl Entry {
    pub open spec fn label(self) -> Seq<char> {
        match self {
            Entry::Thiscall => "pump_entry_thiscall"@,
            Entry::ThiscallRet4 => "pump_entry_thiscall_ret4"@,
            Entry::Stdcall => "pump_entry_stdcall"@,
        }
    }

    pub open spec fn address(self, entries: Entries) -> u32 {
        match self {
            Entry::Thiscall => entries.thiscall,
            Entry::ThiscallRet4 => entries.thiscall_ret4,
            Entry::Stdcall => entries.stdcall,
        }
    }
}

/// What an installation keeps for the pump.
#[derive(Clone, Copy, Debug, PartialEq, Eq, Structural)]
pub struct State {
    pub hook: Hook,
    pub anim_driver: u32,
    pub loader_handle_offset: u32,
}

/// A planned installation: the state to store, then the edit to make.
pub struct Install {
    pub state: State,
    pub site: PatchSite,
    /// What the edit is called in diagnostics.
    pub patch_name: String,
}

/// Plans the installation. The offset must keep a handle of `handle_align` bytes aligned,
/// and the driver's address must not be zero.
pub fn install(cfg: &Config, entries: Entries, handle_align: u32) -> (plan: Install)
    requires
        cfg.anim_driver_addr != 0,
        handle_align != 0,
        cfg.loader_handle_offset % handle_align == 0,
    ensures
        plan.state == (State {
            hook: cfg.hook,
            anim_driver: cfg.anim_driver_addr,
            loader_handle_offset: cfg.loader_handle_offset,
        }),
        plan.site.wf(),
        plan.site.addr() == cfg.dtor_addr,
        plan.site.expected() == cfg.hook.prologue(),
        plan.site.branch_to() == Some(
            (patches::OPCODE_JMP, cfg.hook.entry_of().address(entries)),
        ),
        plan.site.replacement() == patches::branch_bytes(
            patches::OPCODE_JMP,
            cfg.dtor_addr,
            cfg.hook.entry_of().address(entries),
            cfg.hook.prologue().len() as int,
        ),
        plan.patch_name@ == cfg.dtor_label@ + " entry-jmp -> destructor_pump::"@
            + cfg.hook.entry_of().label(),
{
    let entry = cfg.hook.entry();
    let target: u32 = match entry {
        Entry::Thiscall => entries.thiscall,
        Entry::ThiscallRet4 => entries.thiscall_ret4,
        Entry::Stdcall => entries.stdcall,
    };
    let mut patch_name = owned(cfg.dtor_label);
    patch_name.push_str(" entry-jmp -> destructor_pump::");
    match entry {
        Entry::Thiscall => patch_name.push_str("pump_entry_thiscall"),
        Entry::ThiscallRet4 => patch_name.push_str("pump_entry_thiscall_ret4"),
        Entry::Stdcall => patch_name.push_str("pump_entry_stdcall"),
    }
    let site = match cfg.hook {
        Hook::FpoStdcall { seh_handler, .. } => {
            let prologue = fpo_seh_prologue(seh_handler);
            PatchSite::jmp(cfg.dtor_addr, &prologue, target, cfg.dtor_label)
        },
        _ => {
            let prologue: [u8; 5] = [0x55, 0x8b, 0xec, 0x6a, 0xff];
            assert(prologue@ =~= frame_prologue());
            PatchSite::jmp(cfg.dtor_addr, &prologue, target, cfg.dtor_label)
        },
    };
    Install {
        state: State {
            hook: cfg.hook,
            anim_driver: cfg.anim_driver_addr,
            loader_handle_offset: cfg.loader_handle_offset,
        },
        site,
        patch_name,
    }
}

/// What the pump does next.
#[derive(Clone, Copy, Debug, PartialEq, Eq, Structural)]
pub enum PumpStep {
    /// Wait for the worker this many milliseconds.
    Wait { timeout_ms: u32 },
    /// Call the animation driver, then wait.
    DriveThenWait { timeout_ms: u32 },
    /// Resume the destructor; `drained` is whether the worker was seen to exit.
    Resume { drained: bool },
}

/// A pump in progress: how often the driver was called, counted up to the type's limit.
pub struct Pump {
    iters: u32,
}

impl View for Pump {
    type V = nat;

    closed spec fn view(&self) -> nat {
        self.iters as nat
    }
}

/// The count after one more call of the driver.
pub open spec fn counted(n: nat) -> nat {
    if n < u32::MAX {
        n + 1
    } else {
        n
    }
}

impl Pump {
    /// Starts the pump. Without a worker there is nothing to wait for; otherwise a first
    /// probe returns at once when the worker has already exited.
    pub fn start(handle: usize) -> (res: (Pump, PumpStep))
        ensures
            res.0@ == 0,
            res.1 == (if handle == 0 {
                PumpStep::Resume { drained: false }
            } else {
                PumpStep::Wait { timeout_ms: 0 }
            }),
    {
        let step = if handle == 0 {
            PumpStep::Resume { drained: false }
        } else {
            PumpStep::Wait { timeout_ms: 0 }
        };
        (Pump { iters: 0 }, step)
    }

    /// Decides on the result of a wait. Anything but an exit or a timeout means that the
    /// destructor's own join would see the same, so pumping can't help.
    pub fn waited(&mut self, result: u32) -> (step: PumpStep)
        ensures
            step == (if result == WAIT_OBJECT_0 {
                PumpStep::Resume { drained: true }
            } else if result == WAIT_TIMEOUT {
                PumpStep::DriveThenWait { timeout_ms: 1 }
            } else {
                PumpStep::Resume { drained: false }
            }),
            final(self)@ == (if result == WAIT_TIMEOUT {
                counted(old(self)@)
            } else {
                old(self)@
            }),
    {
        if result == WAIT_OBJECT_0 {
            PumpStep::Resume { drained: true }
        } else if result == WAIT_TIMEOUT {
            self.iters = if self.iters < u32::MAX {
                self.iters + 1
            } else {
                self.iters
            };
            PumpStep::DriveThenWait { timeout_ms: 1 }
        } else {
            PumpStep::Resume { drained: false }
        }
    }

    /// How often the driver was called.
    pub fn iters(&self) -> (n: u32)
        ensures
            n == self@,
    {
        self.iters
    }
}

/// A pump that ran to its end.
#[derive(Clone, Copy, Debug, PartialEq, Eq, Structural)]
pub struct PumpRun {
    /// How often the worker was waited for.
    pub waits: usize,
    /// How often the driver was called.
    pub drives: usize,
    pub drained: bool,
}

/// The number of timeouts in front of the first other wait result.
pub open spec fn leading_timeouts(results: Seq<u32>) -> nat
    decreases results.len(),
{
    if results.len() == 0 || results[0] != WAIT_TIMEOUT {
        0
    } else {
        1 + leading_timeouts(results.skip(1))
    }
}

/// Runs the pump on the results that the waits return in turn. `None` means that they
/// ran out before the pump was done.
pub fn pump(handle: usize, results: &[u32]) -> (res: Option<PumpRun>)
    ensures
        ({
            let n = leading_timeouts(results@) as int;
            match res {
                Some(run) => if handle == 0 {
                    run == (PumpRun { waits: 0, drives: 0, drained: false })
                } else {
                    &&& n < results@.len()
                    &&& run.drives == n
                    &&& run.waits == n + 1
                    &&& run.drained == (results@[n] == WAIT_OBJECT_0)
                },
                None => handle != 0 && n == results@.len(),
            }
        }),
{
    let (mut state, first) = Pump::start(handle);
    match first {
        PumpStep::Resume { drained } => {
            return Some(PumpRun { waits: 0, drives: 0, drained });
        },
        _ => {},
    }
    let mut i: usize = 0;
    assert(results@.skip(0) =~= results@);
    while i < results.len()
        invariant
            i <= results@.len(),
            handle != 0,
            leading_timeouts(results@) == i + leading_timeouts(results@.skip(i as int)),
            forall|k: int| 0 <= k < i ==> results@[k] == WAIT_TIMEOUT,
        decreases results.len() - i,
    {
        let result: u32 = results[i];
        let step = state.waited(result);
        assert(results@.skip(i as int)[0] == result);
        match step {
            PumpStep::Resume { drained } => {
                return Some(PumpRun { waits: i + 1, drives: i, drained });
            },
            _ => {
                assert(results@.skip(i as int).skip(1) =~= results@.skip(i + 1));
            },
        }
        i += 1;
    }
    assert(results@.skip(i as int).len() == 0);
    None
}

/// The pump is done exactly when a wait returns something else than a timeout: the driver
/// runs once for each timeout, and never after the worker was seen to exit.
pub proof fn lemma_leading_timeouts(results: Seq<u32>)
    ensures
        leading_timeouts(results) <= results.len(),
        forall|i: int|
            0 <= i < leading_timeouts(results) ==> #[trigger] results[i] == WAIT_TIMEOUT,
        leading_timeouts(results) < results.len() ==> results[leading_timeouts(results) as int]
            != WAIT_TIMEOUT,
    decreases results.len(),
{
    if results.len() > 0 && results[0] == WAIT_TIMEOUT {
        let rest = results.skip(1);
        lemma_leading_timeouts(rest);
        assert forall|i: int| 0 <= i < leading_timeouts(results) implies #[trigger] results[i]
            == WAIT_TIMEOUT by {
            if i > 0 {
                assert(rest[i - 1] == results[i]);
            }
        }
        let n = leading_timeouts(rest) as int;
        if n < rest.len() {
            assert(rest[n] == results[n + 1]);
        }
    }
}

/// The bytes at a destructor's entry: `push ebp`, `mov ebp, esp` and `push -1` of a frame, or
/// `push -1` and the push of a handler, whose address follows in little-endian order.
pub proof fn lemma_prologues(hook: Hook)
    ensures
        hook is FpoStdcall ==> {
            &&& hook.prologue().len() == 7
            &&& hook.prologue()[0] == 0x6a && hook.prologue()[1] == 0xff
            &&& hook.prologue()[2] == 0x68
            &&& bytes::u32_at(hook.prologue(), 3) == hook->seh_handler
        },
        !(hook is FpoStdcall) ==> hook.prologue() == seq![0x55u8, 0x8bu8, 0xecu8, 0x6au8, 0xffu8],
{
    if hook is FpoStdcall {
        let handler = hook->seh_handler;
        bytes::lemma_read_back(handler, 0);
        assert(hook.prologue().subrange(3, 7) =~= bytes::le32(handler));
        assert(bytes::u32_at(hook.prologue(), 3) == bytes::u32_at(
            hook.prologue().subrange(3, 7),
            0,
        ));
    }
}

/// Each calling convention has its own entry point, the two that take the object on the
/// stack sharing one; a destructor is resumed at its own trampoline.
pub proof fn lemma_entry_points(t: u32, handler: u32, entries: Entries)
    ensures
        Hook::EbpFrameThiscall(t).entry_of().address(entries) == entries.thiscall,
        Hook::EbpFrameThiscallRet4(t).entry_of().address(entries) == entries.thiscall_ret4,
        Hook::EbpFrameStdcall(t).entry_of().address(entries) == entries.stdcall,
        (Hook::FpoStdcall { trampoline: t, seh_handler: handler }).entry_of().address(entries)
            == entries.stdcall,
        Hook::EbpFrameThiscall(t).resume_at() == t,
        Hook::EbpFrameThiscallRet4(t).resume_at() == t,
        Hook::EbpFrameStdcall(t).resume_at() == t,
        (Hook::FpoStdcall { trampoline: t, seh_handler: handler }).resume_at() == t,
        Entry::Thiscall.label() == "pump_entry_thiscall"@,
        Entry::ThiscallRet4.label() == "pump_entry_thiscall_ret4"@,
        Entry::Stdcall.label() == "pump_entry_stdcall"@,
{
}

/// Calls of the driver are counted one by one, up to the limit of the count.
pub proof fn lemma_counted(n: nat)
    ensures
        n < 0xffff_ffff ==> counted(n) == n + 1,
        n >= 0xffff_ffff ==> counted(n) == n,
{
}

/// Waits that time out are counted up to the first that does not.
pub proof fn lemma_timeouts_counted(n: nat, result: u32, rest: Seq<u32>)
    requires
        result != 0x102,
    ensures
        leading_timeouts(Seq::new(n, |i: int| 0x102u32) + seq![result] + rest) == n,
        leading_timeouts(Seq::new(n, |i: int| 0x102u32)) == n,
{
    let ended = Seq::new(n, |i: int| 0x102u32) + seq![result] + rest;
    lemma_leading_timeouts(ended);
    assert(ended[n as int] == result);
    let k = leading_timeouts(ended) as int;
    if k < n {
        assert(ended[k] == 0x102);
    }
    let open = Seq::new(n, |i: int| 0x102u32);
    lemma_leading_timeouts(open);
    let k = leading_timeouts(open) as int;
    if k < n {
        assert(open[k] == 0x102);
    }
}

/// What a wait returns.
pub proof fn lemma_wait_results()
    ensures
        WAIT_OBJECT_0 == 0,
        WAIT_TIMEOUT == 258,
{
}

} // verus!
