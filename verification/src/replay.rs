//! Per-game replay state: which keys are held during playback, and the pacing that they
//! ask for.

use crate::bytes;
use crate::bytes::cast_signed;
use crate::config::FramerateCfg;
use crate::once::FirstWins;
use crate::pacer::PacingPolicy;
use crate::thread::MainToken;
use vstd::prelude::*;

verus! {

/// State of replay-relevant inputs.
#[derive(Clone, Copy, Debug, PartialEq, Eq, Structural)]
pub struct HeldKeys {
    pub shoot: bool,
    pub focus: bool,
    pub skip: bool,
    /// Set by games with an extra fast-forward source.
    pub ctrl: bool,
}

/// Registers the game's probe for held keys; the first caller wins.
pub fn set_probe<F: Copy>(probe: &mut FirstWins<F>, f: F)
    ensures
        final(probe).value() == (match old(probe).value() {
            Some(first) => Some(first),
            None => Some(f),
        }),
{
    probe.set(f);
}

/// Pacing intent during replay playback.
#[derive(Clone, Copy, Debug, PartialEq, Eq, Structural)]
pub enum ReplayMode {
    Normal,
    Skip,
    Slow,
}

/// Focus asks for slow motion and wins; shoot, skip or Ctrl ask for fast-forward. Without
/// playback there is nothing to ask for.
pub open spec fn mode_of(keys: Option<HeldKeys>) -> ReplayMode {
    match keys {
        None => ReplayMode::Normal,
        Some(k) => if k.focus {
            ReplayMode::Slow
        } else if k.shoot || k.skip || k.ctrl {
            ReplayMode::Skip
        } else {
            ReplayMode::Normal
        },
    }
}

/// Classifies what the probe observed; `None` while playback is inactive.
pub fn replay_mode(keys: Option<HeldKeys>) -> (mode: ReplayMode)
    ensures
        mode == mode_of(keys),
{
    match keys {
        None => ReplayMode::Normal,
        Some(k) => if k.focus {
            ReplayMode::Slow
        } else if k.shoot || k.skip || k.ctrl {
            ReplayMode::Skip
        } else {
            ReplayMode::Normal
        },
    }
}

/// The pacing that a mode calls for.
pub open spec fn policy_of(mode: ReplayMode, cfg: FramerateCfg) -> PacingPolicy {
    match mode {
        ReplayMode::Normal => PacingPolicy::LiveInput { target_fps: cfg.game_fps },
        ReplayMode::Skip => PacingPolicy::InternalCadence { target_fps: cfg.replay_skip_fps },
        ReplayMode::Slow => PacingPolicy::InternalCadence { target_fps: cfg.replay_slow_fps },
    }
}

/// The mode seen last.
pub struct ModeLatch {
    mode: ReplayMode,
}

impl View for ModeLatch {
    type V = ReplayMode;

    closed spec fn view(&self) -> ReplayMode {
        self.mode
    }
}

impl ModeLatch {
    pub fn new() -> (latch: ModeLatch)
        ensures
            latch@ == ReplayMode::Normal,
    {
        ModeLatch { mode: ReplayMode::Normal }
    }

    /// Classifies the held keys, and reports a change of mode with the pacing that it calls
    /// for. A change is latched, so that each is reported once.
    pub fn policy_change(
        &mut self,
        _tok: &MainToken,
        keys: Option<HeldKeys>,
        cfg: &FramerateCfg,
    ) -> (res: Option<(ReplayMode, PacingPolicy)>)
        ensures
            final(self)@ == mode_of(keys),
            res == (if old(self)@ == mode_of(keys) {
                None
            } else {
                Some((mode_of(keys), policy_of(mode_of(keys), *cfg)))
            }),
    {
        let observed = replay_mode(keys);
        if self.mode == observed {
            return None;
        }
        self.mode = observed;
        let policy = match observed {
            ReplayMode::Normal => PacingPolicy::LiveInput { target_fps: cfg.game_fps },
            ReplayMode::Skip => PacingPolicy::InternalCadence { target_fps: cfg.replay_skip_fps },
            ReplayMode::Slow => PacingPolicy::InternalCadence { target_fps: cfg.replay_slow_fps },
        };
        Some((observed, policy))
    }
}

/// Input bitfield addressing method.
#[derive(Clone, Copy, Debug, PartialEq, Eq, Structural)]
pub enum InputAddr {
    /// Address of the input bitfield.
    Direct(u32),
    /// Address of a pointer to the input bitfield.
    Indirect(u32),
}

/// Layout of a game's replay-state globals. All addresses are absolute and 4-byte aligned.
#[derive(Clone, Copy, Debug, PartialEq, Eq, Structural)]
pub struct ReplayStateLayout {
    /// Address of the slot that holds the replay manager, or null outside the replay menu.
    pub mgr_ptr_addr: u32,
    /// Offset of the mode within the manager.
    pub mgr_mode_offset: u32,
    /// The mode during playback.
    pub viewer_mode: i32,
    pub input_addr: InputAddr,
    pub input_shoot_bit: u32,
    pub input_focus_bit: u32,
    pub input_skip_bit: u32,
}

/// What is wrong with a layout.
#[derive(Clone, Copy, Debug, PartialEq, Eq, Structural)]
pub enum LayoutDefect {
    NullManager,
    UnalignedManager,
    UnalignedMode,
    NullInput,
    UnalignedInput,
}

impl InputAddr {
    pub open spec fn addr(self) -> u32 {
        match self {
            InputAddr::Direct(addr) => addr,
            InputAddr::Indirect(addr) => addr,
        }
    }
}

/// One word to read, or the outcome of a probe.
#[derive(Clone, Copy, Debug, PartialEq, Eq, Structural)]
pub enum ProbeStep {
    /// Read the word at this address.
    Read(u32),
    Done(Option<HeldKeys>),
}

/// How far a probe has come.
#[derive(Clone, Copy, Debug, PartialEq, Eq, Structural)]
pub enum ProbeStage {
    Manager,
    Mode,
    InputObject,
    InputBits,
}

impl ReplayStateLayout {
    /// The first defect of the layout.
    pub open spec fn defect(self) -> Option<LayoutDefect> {
        if self.mgr_ptr_addr == 0 {
            Some(LayoutDefect::NullManager)
        } else if self.mgr_ptr_addr % 4 != 0 {
            Some(LayoutDefect::UnalignedManager)
        } else if self.mgr_mode_offset % 4 != 0 {
            Some(LayoutDefect::UnalignedMode)
        } else if self.input_addr.addr() == 0 {
            Some(LayoutDefect::NullInput)
        } else if self.input_addr.addr() % 4 != 0 {
            Some(LayoutDefect::UnalignedInput)
        } else {
            None
        }
    }

    /// Checks the layout.
    pub fn validate(&self) -> (res: Result<(), LayoutDefect>)
        ensures
            match res {
                Ok(()) => self.defect() is None,
                Err(defect) => self.defect() == Some(defect),
            },
    {
        if self.mgr_ptr_addr == 0 {
            return Err(LayoutDefect::NullManager);
        }
        if self.mgr_ptr_addr % 4 != 0 {
            return Err(LayoutDefect::UnalignedManager);
        }
        if self.mgr_mode_offset % 4 != 0 {
            return Err(LayoutDefect::UnalignedMode);
        }
        let input: u32 = match self.input_addr {
            InputAddr::Direct(addr) => addr,
            InputAddr::Indirect(addr) => addr,
        };
        if input == 0 {
            return Err(LayoutDefect::NullInput);
        }
        if input % 4 != 0 {
            return Err(LayoutDefect::UnalignedInput);
        }
        Ok(())
    }

    /// Where the mode stands, for a manager at `mgr`.
    pub open spec fn mode_addr(self, mgr: u32) -> u32 {
        ((mgr + self.mgr_mode_offset) % 0x1_0000_0000) as u32
    }

    /// The keys that an input bitfield holds down.
    pub open spec fn keys_in(self, bits: u32) -> HeldKeys {
        HeldKeys {
            shoot: bits & self.input_shoot_bit != 0,
            focus: bits & self.input_focus_bit != 0,
            skip: bits & self.input_skip_bit != 0,
            ctrl: false,
        }
    }

    /// The keys held in a memory with these words: none outside the replay menu, outside
    /// playback, or before the input object is live.
    pub open spec fn keys_of(self, word: spec_fn(u32) -> u32) -> Option<HeldKeys> {
        let mgr = word(self.mgr_ptr_addr);
        if mgr == 0 || bytes::as_signed(word(self.mode_addr(mgr))) != self.viewer_mode {
            None
        } else {
            match self.input_addr {
                InputAddr::Direct(addr) => Some(self.keys_in(word(addr))),
                InputAddr::Indirect(addr) => if word(addr) == 0 {
                    None
                } else {
                    Some(self.keys_in(word(word(addr))))
                },
            }
        }
    }

    /// Starts to read the held keys.
    pub fn read_keys(&self, _tok: &MainToken) -> (step: (ProbeStage, ProbeStep))
        ensures
            step == (ProbeStage::Manager, ProbeStep::Read(self.mgr_ptr_addr)),
    {
        (ProbeStage::Manager, ProbeStep::Read(self.mgr_ptr_addr))
    }

    /// What follows a read at `stage` that gave `word`.
    pub open spec fn after(self, stage: ProbeStage, word: u32) -> (ProbeStage, ProbeStep) {
        match stage {
            ProbeStage::Manager => if word == 0 {
                (stage, ProbeStep::Done(None))
            } else {
                (ProbeStage::Mode, ProbeStep::Read(self.mode_addr(word)))
            },
            ProbeStage::Mode => if bytes::as_signed(word) != self.viewer_mode {
                (stage, ProbeStep::Done(None))
            } else {
                match self.input_addr {
                    InputAddr::Direct(addr) => (ProbeStage::InputBits, ProbeStep::Read(addr)),
                    InputAddr::Indirect(addr) => (ProbeStage::InputObject, ProbeStep::Read(addr)),
                }
            },
            ProbeStage::InputObject => if word == 0 {
                (stage, ProbeStep::Done(None))
            } else {
                (ProbeStage::InputBits, ProbeStep::Read(word))
            },
            ProbeStage::InputBits => (stage, ProbeStep::Done(Some(self.keys_in(word)))),
        }
    }

    /// Takes the word that was read at `stage`.
    pub fn advance(&self, stage: ProbeStage, word: u32) -> (step: (ProbeStage, ProbeStep))
        ensures
            step == self.after(stage, word),
    {
        match stage {
            ProbeStage::Manager => if word == 0 {
                (stage, ProbeStep::Done(None))
            } else {
                (ProbeStage::Mode, ProbeStep::Read(word.wrapping_add(self.mgr_mode_offset)))
            },
            ProbeStage::Mode => if cast_signed(word) != self.viewer_mode {
                (stage, ProbeStep::Done(None))
            } else {
                match self.input_addr {
                    InputAddr::Direct(addr) => (ProbeStage::InputBits, ProbeStep::Read(addr)),
                    InputAddr::Indirect(addr) => (ProbeStage::InputObject, ProbeStep::Read(addr)),
                }
            },
            ProbeStage::InputObject => if word == 0 {
                (stage, ProbeStep::Done(None))
            } else {
                (ProbeStage::InputBits, ProbeStep::Read(word))
            },
            ProbeStage::InputBits => (
                stage,
                ProbeStep::Done(
                    Some(
                        HeldKeys {
                            shoot: word & self.input_shoot_bit != 0,
                            focus: word & self.input_focus_bit != 0,
                            skip: word & self.input_skip_bit != 0,
                            ctrl: false,
                        },
                    ),
                ),
            ),
        }
    }
}

/// Answers every read of a probe from a memory, for at most `fuel` reads.
pub open spec fn probed(
    layout: ReplayStateLayout,
    word: spec_fn(u32) -> u32,
    step: (ProbeStage, ProbeStep),
    fuel: nat,
) -> Option<Option<HeldKeys>>
    decreases fuel,
{
    match step.1 {
        ProbeStep::Done(keys) => Some(keys),
        ProbeStep::Read(addr) => if fuel == 0 {
            None
        } else {
            probed(layout, word, layout.after(step.0, word(addr)), (fuel - 1) as nat)
        },
    }
}

/// A probe is done after at most four reads, and what it finds is what the memory holds.
pub proof fn lemma_probe(layout: ReplayStateLayout, word: spec_fn(u32) -> u32)
    ensures
        probed(
            layout,
            word,
            (ProbeStage::Manager, ProbeStep::Read(layout.mgr_ptr_addr)),
            4,
        ) == Some(layout.keys_of(word)),
{
    reveal_with_fuel(probed, 6);
}

/// Playback is slow exactly while focus is held, and skips ahead exactly while one of the
/// other keys is held without it; outside of playback the keys ask for nothing.
pub proof fn lemma_modes(keys: HeldKeys)
    ensures
        mode_of(None) is Normal,
        mode_of(Some(keys)) is Slow <==> keys.focus,
        mode_of(Some(keys)) is Skip <==> !keys.focus && (keys.shoot || keys.skip || keys.ctrl),
        mode_of(Some(keys)) is Normal <==> !keys.focus && !keys.shoot && !keys.skip && !keys.ctrl,
{
}

/// Only normal play follows the input; each mode has its own configured rate.
pub proof fn lemma_mode_policies(cfg: FramerateCfg)
    ensures
        policy_of(ReplayMode::Normal, cfg) == (PacingPolicy::LiveInput {
            target_fps: cfg.game_fps,
        }),
        policy_of(ReplayMode::Skip, cfg) == (PacingPolicy::InternalCadence {
            target_fps: cfg.replay_skip_fps,
        }),
        policy_of(ReplayMode::Slow, cfg) == (PacingPolicy::InternalCadence {
            target_fps: cfg.replay_slow_fps,
        }),
{
}

/// A layout is sound when all its addresses are aligned and neither of the two pointers is
/// null, and what is reported is the first thing that is not so.
pub proof fn lemma_defects(layout: ReplayStateLayout)
    ensures
        ({
            let (mgr, input) = (
                layout.mgr_ptr_addr,
                match layout.input_addr {
                    InputAddr::Direct(a) => a,
                    InputAddr::Indirect(a) => a,
                },
            );
            let mgr_ok = mgr != 0 && mgr % 4 == 0;
            let mode_ok = layout.mgr_mode_offset % 4 == 0;
            &&& layout.defect() is None <==> mgr_ok && mode_ok && input != 0 && input % 4 == 0
            &&& layout.defect() == Some(LayoutDefect::NullManager) <==> mgr == 0
            &&& layout.defect() == Some(LayoutDefect::UnalignedManager) <==> mgr % 4 != 0
            &&& layout.defect() == Some(LayoutDefect::UnalignedMode) <==> mgr_ok && !mode_ok
            &&& layout.defect() == Some(LayoutDefect::NullInput) <==> mgr_ok && mode_ok && input
                == 0
            &&& layout.defect() == Some(LayoutDefect::UnalignedInput) <==> mgr_ok && mode_ok
                && input % 4 != 0
        }),
{
}

/// A key is held when one of its bits is set, and each key has its own; Ctrl is no bit of the
/// input.
pub proof fn lemma_keys_in(layout: ReplayStateLayout, bits: u32)
    ensures
        layout.keys_in(bits).shoot <==> bits & layout.input_shoot_bit != 0,
        layout.keys_in(bits).focus <==> bits & layout.input_focus_bit != 0,
        layout.keys_in(bits).skip <==> bits & layout.input_skip_bit != 0,
        !layout.keys_in(bits).ctrl,
        layout.keys_in(0) == (HeldKeys { shoot: false, focus: false, skip: false, ctrl: false }),
{
    let (a, b, c) = (layout.input_shoot_bit, layout.input_focus_bit, layout.input_skip_bit);
    assert(0u32 & a == 0 && 0u32 & b == 0 && 0u32 & c == 0) by (bit_vector);
}

/// Keys are read exactly while the manager exists, its mode is that of playback, and an
/// indirect input has an object; the bits are those at the address, or where it leads.
pub proof fn lemma_keys_of(layout: ReplayStateLayout, word: spec_fn(u32) -> u32)
    ensures
        ({
            let mgr = word(layout.mgr_ptr_addr);
            let at = (mgr + layout.mgr_mode_offset) % 0x1_0000_0000;
            let mode = word(at as u32);
            let playing = mgr != 0 && (mode == layout.viewer_mode || mode == layout.viewer_mode
                + 0x1_0000_0000);
            match layout.input_addr {
                InputAddr::Direct(a) => {
                    &&& layout.keys_of(word) is Some <==> playing
                    &&& playing ==> layout.keys_of(word)->0 == layout.keys_in(word(a))
                },
                InputAddr::Indirect(a) => {
                    &&& layout.keys_of(word) is Some <==> playing && word(a) != 0
                    &&& playing && word(a) != 0 ==> layout.keys_of(word)->0 == layout.keys_in(
                        word(word(a)),
                    )
                },
            }
        }),
{
}

} // verus!
