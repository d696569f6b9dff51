//! Vtable slots, and who owns an object or the render thread.

use neopatch_core::d3d9_hooks::{
    capture_d3d9_slots, install_d3d9_hooks, install_device_hooks, D3d9Hooks, D3d9Slots,
    DeviceHooks, DeviceSlots, D3D9EX_SLOTS, DEVICE9EX_SLOTS,
};
use neopatch_core::modules::ModuleRange;
use neopatch_core::nonzero::NonZeroUsize;
use neopatch_core::session::Session;
use neopatch_core::thread::{Claim, MainThread, MainToken};
use neopatch_core::vtable::{CaptureOutcome, FnSlot, IndexedFnSlots, PatchOutcome, VtblScope};

fn one() -> u32 {
    1
}
fn two() -> u32 {
    2
}

type F = fn() -> u32;

fn nz(addr: usize) -> NonZeroUsize {
    NonZeroUsize::new(addr).unwrap()
}

#[test]
fn claim_bind_keys_to_originals() {
    let mut slots: IndexedFnSlots<F, 2> = IndexedFnSlots::new("TEST", [one, one]);
    let a = slots.claim(nz(0x1000), one).unwrap();
    let b = slots.claim(nz(0x2000), two).unwrap();
    assert_ne!(a, b);
    assert_eq!((slots.get(a))(), 1);
    assert_eq!((slots.get(b))(), 2);
}

#[test]
fn claim_keep_first_capture_per_key() {
    let mut slots: IndexedFnSlots<F, 2> = IndexedFnSlots::new("TEST", [one, one]);
    let first = slots.claim(nz(0x1000), one).unwrap();
    let second = slots.claim(nz(0x1000), two).unwrap();
    assert_eq!(first, second);
    assert_eq!((slots.get(first))(), 1);
}

#[test]
fn claim_refuse_when_full() {
    let mut slots: IndexedFnSlots<F, 1> = IndexedFnSlots::new("TEST", [one]);
    assert_eq!(slots.claim(nz(0x1000), one), Some(0));
    assert_eq!(slots.claim(nz(0x2000), two), None);
    assert_eq!(slots.lookup(nz(0x1000)), Some(0));
    assert_eq!((slots.get(0))(), 1);
}

#[test]
fn lookup_miss_unclaimed_keys() {
    let mut slots: IndexedFnSlots<F, 2> = IndexedFnSlots::new("TEST", [one, one]);
    assert!(slots.lookup(nz(0x1000)).is_none());
    assert_eq!(slots.claim(nz(0x1000), one), Some(0));
    assert_eq!(slots.lookup(nz(0x1000)), Some(0));
    assert!(slots.lookup(nz(0x2000)).is_none());
}

fn pairing(first_key: usize) {
    let hooks: [u32; 8] = [100, 101, 102, 103, 104, 105, 106, 107];
    let mut pool: IndexedFnSlots<u32, 8> = IndexedFnSlots::new("TEST", hooks);
    for k in 0..8usize {
        assert_eq!(pool.claim(nz(first_key + k), 200 + k as u32), Some(k));
    }
    for k in 0..8usize {
        // The hook of an index forwards to the original of the same index.
        assert_eq!(pool.hook(k), 100 + k as u32);
        assert_eq!(pool.get(k), 200 + k as u32);
    }
    assert_eq!(pool.name(), "TEST");
}

#[test]
fn get_device_state_instances_pairing() {
    pairing(0x1000);
}

#[test]
fn create_device_instances_pairing() {
    pairing(0x2000);
}

fn scope() -> VtblScope {
    VtblScope {
        key: nz(0x5000),
        our_range: Some(ModuleRange::of_image(0x1000_0000, 0x1000)),
        expected_range: Some(ModuleRange::of_image(0x2000_0000, 0x1000)),
    }
}

#[test]
fn slots_are_patched_once() {
    let mut vtbl = vec![0x2000_0010, 0];
    let mut original: FnSlot<u32> = FnSlot::new("ORIGINAL");
    let hook = 0x1000_0020;
    assert_eq!(
        scope().intercept(&mut vtbl, 0, &mut original, hook),
        PatchOutcome::Applied
    );
    assert_eq!(vtbl[0], hook);
    assert_eq!(original.try_get(), Some(0x2000_0010));
    assert_eq!(
        scope().intercept(&mut vtbl, 0, &mut original, hook),
        PatchOutcome::AlreadyOurs
    );
    assert_eq!(original.try_get(), Some(0x2000_0010));
    assert_eq!(
        scope().intercept(&mut vtbl, 1, &mut original, hook),
        PatchOutcome::NullSlot
    );
    // The runtime put its own entry back.
    vtbl[0] = 0x2000_0010;
    assert_eq!(
        scope().intercept(&mut vtbl, 0, &mut original, hook),
        PatchOutcome::Reapplied
    );
    assert_eq!(vtbl[0], hook);
    // A shim was layered over the vtable since: the hook goes over it.
    vtbl[0] = 0x3000_0000;
    assert_eq!(
        scope().intercept(&mut vtbl, 0, &mut original, hook),
        PatchOutcome::Diverged
    );
}

#[test]
fn indexed_slots_run_out() {
    let mut pool: IndexedFnSlots<u32, 1> = IndexedFnSlots::new("POOL", [0x1000_0020]);
    let mut first = vec![0x2000_0010];
    assert_eq!(
        scope().intercept_indexed(&mut first, 0, &mut pool),
        PatchOutcome::Applied
    );
    assert_eq!(first[0], 0x1000_0020);
    assert_eq!(pool.get(0), 0x2000_0010);
    let mut other = scope();
    other.key = nz(0x6000);
    let mut second = vec![0x2000_0030];
    assert_eq!(
        other.intercept_indexed(&mut second, 0, &mut pool),
        PatchOutcome::PoolFull
    );
    assert_eq!(second[0], 0x2000_0030);
}

#[test]
fn captures_keep_the_first_entry() {
    let mut slot: FnSlot<u32> = FnSlot::new("CAPTURE");
    assert_eq!(scope().capture(&vec![0], 0, &mut slot), CaptureOutcome::Null);
    assert_eq!(slot.try_get(), None);
    assert_eq!(
        scope().capture(&vec![0x2000_0010], 0, &mut slot),
        CaptureOutcome::Captured
    );
    assert_eq!(
        scope().capture(&vec![0x2000_0010], 0, &mut slot),
        CaptureOutcome::Skipped
    );
    assert_eq!(
        scope().capture(&vec![0x2000_0020], 0, &mut slot),
        CaptureOutcome::Diverged
    );
    assert_eq!(slot.get(), 0x2000_0010);
    assert_eq!(slot.name(), "CAPTURE");
}

fn claim(main: &mut MainThread, tid: u32) -> Option<MainToken> {
    match main.claim(tid) {
        Claim::Claimed(tok) | Claim::Confirmed(tok) => Some(tok),
        Claim::Refused { .. } => None,
    }
}

#[test]
fn main_claim_serializes_concurrent_claims() {
    for tid in 1..9 {
        let mut main = MainThread::new();
        assert!(main.current(tid).is_none(), "thread {tid} saw a stale claim");
        assert!(claim(&mut main, tid).is_some(), "thread {tid} could not claim");
        assert!(main.current(tid).is_some(), "thread {tid} lost its claim");
        // Whoever comes later is refused.
        for other in 1..9 {
            assert_eq!(claim(&mut main, other).is_some(), other == tid);
        }
    }
}

#[test]
fn claim_and_current_thread_semantics() {
    let mut main = MainThread::new();
    assert!(main.current(7).is_none());

    let _tok = claim(&mut main, 7).expect("nobody has claimed");
    assert!(claim(&mut main, 7).is_some());
    assert!(main.current(7).is_some());

    assert!(claim(&mut main, 8).is_none());
    assert!(main.current(8).is_none());

    assert!(main.current(7).is_some());
}

#[test]
fn mirrors_and_gates() {
    let mut main = MainThread::new();
    let mut session = Session::new();
    let (a, b) = (0x4, 0x8);

    // Nothing recorded: everything is foreign, including null.
    assert!(!session.is_game_d3d9(a));
    assert!(!session.is_game_device(a));
    assert!(!session.is_game_d3d9(0));
    assert!(!session.is_game_device(0));
    assert!(session.gate_d3d9(a, &main, 7).is_none());
    assert!(session.gate_device(b, &main, 7).is_none());

    let tok = claim(&mut main, 7).unwrap();
    session.record_d3d9(&tok, nz(a));
    assert!(session.is_game_d3d9(a));
    assert!(!session.is_game_d3d9(b));
    assert!(!session.is_game_d3d9(0));
    assert!(!session.is_game_device(a));

    session.record_device(&tok, nz(b));
    assert!(session.is_game_device(b));
    assert!(!session.is_game_device(a));

    // The gates are closed to other threads.
    assert!(session.gate_d3d9(a, &main, 8).is_none());
    assert!(session.gate_device(b, &main, 8).is_none());
    assert!(session.gate_d3d9(a, &main, 7).is_some());
    assert!(session.gate_d3d9(b, &main, 7).is_none());
    assert_eq!(session.gate_device(b, &main, 7).map(|(_, dev)| dev.get()), Some(b));

    // The pin goes while a replacement is created; the device is still recognised.
    session.device_creating(&tok);
    assert!(session.is_game_device(b));
    assert_eq!(session.pinned_device(&tok), None);

    session.record_device(&tok, nz(0xc));
    assert!(!session.is_game_device(b));
    assert!(session.gate_device(b, &main, 7).is_none());
}

#[test]
fn pins_move_to_the_new_object() {
    let mut main = MainThread::new();
    let tok = claim(&mut main, 7).unwrap();
    let mut session = Session::new();
    let change = session.record_device(&tok, nz(0x10));
    assert_eq!((change.add_ref, change.release), (Some(nz(0x10)), None));
    // The same device again takes nothing.
    let change = session.record_device(&tok, nz(0x10));
    assert_eq!((change.add_ref, change.release), (None, None));
    let change = session.record_device(&tok, nz(0x20));
    assert_eq!((change.add_ref, change.release), (Some(nz(0x20)), Some(nz(0x10))));
    assert_eq!(session.pinned_device(&tok), Some(nz(0x20)));
    let change = session.device_creating(&tok);
    assert_eq!((change.add_ref, change.release), (None, Some(nz(0x20))));
    assert_eq!(session.pinned_device(&tok), None);
}

#[test]
fn runtime_hooks_are_idempotent() {
    let hooks = D3d9Hooks {
        create_device: 0x1000_0010,
        check_device_format: 0x1000_0020,
    };
    let mut vtbl: Vec<u32> = (0..D3D9EX_SLOTS as u32).map(|i| 0x2000_0000 + i * 4).collect();
    let real_create = vtbl[16];
    let mut slots = D3d9Slots::new();
    assert_eq!(slots.create_device.name(), "REAL_CREATE_DEVICE");
    capture_d3d9_slots(&scope(), &vtbl, &mut slots);
    install_d3d9_hooks(&scope(), &mut vtbl, true, &mut slots, hooks);
    let once = vtbl.clone();
    install_d3d9_hooks(&scope(), &mut vtbl, true, &mut slots, hooks);
    assert_eq!(once, vtbl);
    assert_eq!(vtbl[16], 0x1000_0010);
    assert_eq!(slots.create_device.try_get(), Some(real_create));
    assert!(vtbl.contains(&0x1000_0020));

    let hooks = DeviceHooks {
        present: 0x1000_0030,
        reset: 0x1000_0040,
        create_texture: 0x1000_0060,
        create_vertex_buffer: 0x1000_0070,
    };
    let mut vtbl: Vec<u32> = (0..DEVICE9EX_SLOTS as u32).map(|i| 0x2000_0000 + i * 4).collect();
    let mut slots = DeviceSlots::new();
    assert_eq!(slots.reset_ex.name(), "REAL_RESET_EX");
    install_device_hooks(&scope(), &mut vtbl, true, &mut slots, hooks);
    let once = vtbl.clone();
    install_device_hooks(&scope(), &mut vtbl, true, &mut slots, hooks);
    assert_eq!(once, vtbl);
    for hook in [0x1000_0030, 0x1000_0040, 0x1000_0060, 0x1000_0070] {
        assert!(vtbl.contains(&hook), "{hook:#x}");
    }
    // A vtable that cannot be written keeps its entries.
    let mut locked: Vec<u32> = (0..DEVICE9EX_SLOTS as u32).map(|i| 0x2000_0000 + i * 4).collect();
    let before = locked.clone();
    install_device_hooks(&scope(), &mut locked, false, &mut DeviceSlots::new(), hooks);
    assert_eq!(locked, before);
}

#[test]
fn chaining_is_a_foreign_original_in_a_written_slot() {
    let scope = VtblScope {
        key: nz(0x1000),
        our_range: None,
        expected_range: Some(ModuleRange { base: 0x5000, end: 0x6000 }),
    };
    assert!(!scope.chains_through(PatchOutcome::Applied, 0x5800));
    assert!(scope.chains_through(PatchOutcome::Applied, 0x7000));
    assert!(scope.chains_through(PatchOutcome::Diverged, 0x7000));
    assert!(!scope.chains_through(PatchOutcome::AlreadyOurs, 0x7000));
}
