//! I/O loader sync barrier.
//!
//! Some games start two loader threads before their main loop, and race when a sound is
//! used before both have drained. One hook, at the first per-frame update call, drains
//! them; another, in the I/O thread's error path, makes a missing file abort the other
//! loader instead of leaving it waiting.

use crate::patches;
use crate::patches::PatchSite;
use vstd::prelude::*;

verus! {

/// Releases the loaders' busy-waits.
pub const LOADER_SIGNAL_EXIT_CLEAN: u32 = 1;

/// Aborts the BGM loader after the I/O loader hit a missing file.
pub const LOADER_SIGNAL_ABORT: u32 = 2;

/// The byte at the splice once the jump is installed.
pub const HOOK2_INSTALLED_OPCODE: u8 = 0xe9;

/// Per-game parameters. Addresses are absolute in the host executable.
pub struct Config {
    /// Address of the flag polled by the loader threads.
    pub signal_addr: u32,
    /// Address of the slot that holds the BGM thread's handle.
    pub bgm_handle_addr: u32,
    /// Address of the slot that holds the I/O thread's handle.
    pub io_handle_addr: u32,
    /// Address of the per-frame update call to rewrite.
    pub call_site: u32,
    /// The bytes expected at `call_site`.
    pub call_bytes: [u8; 5],
    /// Address of the real per-frame update function.
    pub real_fn: u32,
    /// Address inside the I/O thread's error path to splice into.
    pub splice_addr: u32,
    /// The bytes expected at `splice_addr`.
    pub splice_expected: [u8; 7],
}

/// Whether the loaders were drained.
pub struct DrainTurn {
    drained: bool,
}

impl View for DrainTurn {
    type V = bool;

    closed spec fn view(&self) -> bool {
        self.drained
    }
}

impl DrainTurn {
    pub fn new() -> (turn: DrainTurn)
        ensures
            turn@ == false,
    {
        DrainTurn { drained: false }
    }

    /// Takes the turn. The first to take it drains the loaders; nobody does after that.
    pub fn take(&mut self) -> (drain: bool)
        ensures
            drain == !old(self)@,
            final(self)@,
    {
        let drain = !self.drained;
        self.drained = true;
        drain
    }
}

/// The flag after the drain raised it: one that is still clear is set, and one that was
/// already set is kept, or an aborted loader would be left waiting.
pub open spec fn raised(signal: u32) -> u32 {
    if signal == 0 {
        LOADER_SIGNAL_EXIT_CLEAN
    } else {
        signal
    }
}

/// What the drain does: the flag it leaves, and the threads it waits for, in order.
pub struct Drain {
    pub signal: u32,
    pub wait_for: Vec<usize>,
}

/// Plans the drain. A thread without a handle is not waited for.
pub fn drain_loaders(signal: u32, bgm: usize, io: usize) -> (drain: Drain)
    ensures
        drain.signal == raised(signal),
        drain.wait_for@ == (if bgm != 0 {
            seq![bgm]
        } else {
            seq![]
        }) + (if io != 0 {
            seq![io]
        } else {
            seq![]
        }),
{
    let mut wait_for: Vec<usize> = Vec::new();
    if bgm != 0 {
        wait_for.push(bgm);
    }
    if io != 0 {
        wait_for.push(io);
    }
    let signal_out: u32 = if signal == 0 {
        LOADER_SIGNAL_EXIT_CLEAN
    } else {
        signal
    };
    assert(wait_for@ =~= (if bgm != 0 {
        seq![bgm]
    } else {
        seq![]
    }) + (if io != 0 {
        seq![io]
    } else {
        seq![]
    }));
    Drain { signal: signal_out, wait_for }
}

/// Raising the flag never clears an abort, always releases the loaders, and does nothing a
/// second time.
pub proof fn lemma_raised(signal: u32)
    ensures
        raised(signal) != 0,
        raised(raised(signal)) == raised(signal),
        raised(LOADER_SIGNAL_ABORT) == LOADER_SIGNAL_ABORT,
{
}

/// The edit that splices the abort into the I/O thread's error path.
pub fn abort_site(cfg: &Config, io_error_trampoline: u32) -> (site: PatchSite)
    ensures
        site.wf(),
        site.addr() == cfg.splice_addr,
        site.expected() == cfg.splice_expected@,
        site.replacement() == patches::branch_bytes(
            patches::OPCODE_JMP,
            cfg.splice_addr,
            io_error_trampoline,
            7,
        ),
        site.branch_to() == Some((patches::OPCODE_JMP, io_error_trampoline)),
        site.label() == "I/O error -> BGM-init abort"@,
{
    PatchSite::jmp(
        cfg.splice_addr,
        &cfg.splice_expected,
        io_error_trampoline,
        "I/O error -> BGM-init abort",
    )
}

/// The edit that puts the barrier in front of the per-frame update, planned once the byte
/// at the splice is known. Without the splice there is no barrier, so that it can't
/// deadlock.
pub fn install(cfg: &Config, wrapper: u32, splice_byte: u8) -> (res: Option<PatchSite>)
    ensures
        match res {
            Some(site) => {
                &&& splice_byte == HOOK2_INSTALLED_OPCODE
                &&& site.wf()
                &&& site.addr() == cfg.call_site
                &&& site.expected() == cfg.call_bytes@
                &&& site.replacement() == patches::branch_bytes(
                    patches::OPCODE_CALL,
                    cfg.call_site,
                    wrapper,
                    5,
                )
                &&& site.branch_to() == Some((patches::OPCODE_CALL, wrapper))
                &&& site.label() == "loader sync barrier (main -> per-frame update)"@
            },
            None => splice_byte != HOOK2_INSTALLED_OPCODE,
        },
{
    if splice_byte != HOOK2_INSTALLED_OPCODE {
        return None;
    }
    Some(
        PatchSite::call(
            cfg.call_site,
            &cfg.call_bytes,
            wrapper,
            "loader sync barrier (main -> per-frame update)",
        ),
    )
}

/// The byte that is looked at tells the splice apart: it is the first of what the splice
/// writes.
pub proof fn lemma_splice_detected(addr: u32, trampoline: u32)
    ensures
        patches::branch_bytes(patches::OPCODE_JMP, addr, trampoline, 7)[0]
            == HOOK2_INSTALLED_OPCODE,
{
}

/// A flag that is clear is raised to a clean exit, and a raised one stays what it is; an abort
/// is told apart from that.
pub proof fn lemma_signals(signal: u32)
    ensures
        raised(0) == 1,
        signal != 0 ==> raised(signal) == signal,
        LOADER_SIGNAL_EXIT_CLEAN == 1,
        LOADER_SIGNAL_ABORT == 2,
        HOOK2_INSTALLED_OPCODE == 0xe9,
{
}

} // verus!
