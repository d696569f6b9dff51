//! In-place patches to vtables.
//!
//! Slots whose current value points into our own DLL are left alone (idempotent
//! re-entry). Any other value gets chained through, since other tools routinely
//! hijack these slots before we get here.

use vstd::prelude::*;
use crate::modules::ModuleRange;
use crate::nonzero::NonZeroUsize;

verus! {

/// A set-once slot for the original function behind a hook.
pub struct FnSlot<F> {
    captured: Option<F>,
    name: &'static str,
}

impl<F> View for FnSlot<F> {
    type V = Option<F>;

    closed spec fn view(&self) -> Option<F> {
        self.captured
    }
}

impl<F: Copy> FnSlot<F> {
    /// The slot's identifier.
    pub closed spec fn label(self) -> Seq<char> {
        self.name@
    }

    /// An uncaptured slot.
    pub fn new(name: &'static str) -> (slot: FnSlot<F>)
        ensures
            slot@ == None::<F>,
            slot.label() == name@,
    {
        FnSlot { captured: None, name }
    }

    /// The slot's identifier.
    pub fn name(&self) -> (name: &'static str)
        ensures
            name@ == self.label(),
    {
        self.name
    }

    /// The captured function. Calling this before the capture is an error.
    pub fn get(&self) -> (f: F)
        requires
            self@ is Some,
        ensures
            Some(f) == self@,
    {
        self.captured.unwrap()
    }

    /// The captured function, if there is one.
    pub fn try_get(&self) -> (res: Option<F>)
        ensures
            res == self@,
    {
        self.captured
    }

    /// Captures `f`. Capturing twice is an error.
    pub fn store(&mut self, f: F)
        requires
            old(self)@ is None,
        ensures
            final(self)@ == Some(f),
            final(self).label() == old(self).label(),
    {
        self.captured = Some(f);
    }
}

/// A pool of displaced originals for one logical slot patched in more than one
/// vtable. Each entry is bound to its own hook instance, so installing `hooks[i]`
/// into a vtable routes every call arriving through that vtable to entry `i`'s
/// original.
///
/// Entries are never evicted; `N` is the maximum number of distinct vtables that can
/// ever be patched for this slot.
pub struct IndexedFnSlots<F, const N: usize> {
    name: &'static str,
    hooks: [F; N],
    keys: Vec<usize>,
    originals: Vec<F>,
}

/// The index of `key` in `keys`.
pub open spec fn position(keys: Seq<usize>, key: usize) -> Option<int>
    decreases keys.len(),
{
    if keys.len() == 0 {
        None
    } else {
        match position(keys.drop_last(), key) {
            Some(i) => Some(i),
            None => if keys.last() == key {
                Some(keys.len() - 1)
            } else {
                None
            },
        }
    }
}

/// [`position`] finds an occurrence exactly when there is one.
pub proof fn lemma_position(keys: Seq<usize>, key: usize)
    ensures
        match position(keys, key) {
            Some(i) => 0 <= i < keys.len() && keys[i] == key && forall|j: int|
                0 <= j < i ==> keys[j] != key,
            None => !keys.contains(key),
        },
    decreases keys.len(),
{
    if keys.len() > 0 {
        let front = keys.drop_last();
        lemma_position(front, key);
        assert(forall|j: int| 0 <= j < front.len() ==> front[j] == keys[j]);
        if position(keys, key) is None {
            assert forall|j: int| 0 <= j < keys.len() implies keys[j] != key by {
                if j < front.len() {
                    assert(front[j] == keys[j]);
                }
            }
        }
    }
}

impl<F: Copy, const N: usize> IndexedFnSlots<F, N> {
    /// The claiming vtables, in claim order.
    pub closed spec fn keys(self) -> Seq<usize> {
        self.keys@
    }

    /// The originals, in claim order.
    pub closed spec fn originals(self) -> Seq<F> {
        self.originals@
    }

    /// The pool's identifier.
    pub closed spec fn label(self) -> Seq<char> {
        self.name@
    }

    /// The hook instances.
    pub closed spec fn hooks(self) -> Seq<F> {
        self.hooks@
    }

    /// One original per key, no key twice, and never more than `N` entries.
    pub open spec fn wf(self) -> bool {
        &&& self.keys().len() == self.originals().len()
        &&& self.keys().len() <= N
        &&& self.hooks().len() == N
        &&& self.keys().no_duplicates()
    }

    /// An empty pool.
    pub fn new(name: &'static str, hooks: [F; N]) -> (pool: IndexedFnSlots<F, N>)
        ensures
            pool.wf(),
            pool.keys() == Seq::<usize>::empty(),
            pool.originals() == Seq::<F>::empty(),
            pool.hooks() == hooks@,
            pool.label() == name@,
    {
        IndexedFnSlots { name, hooks, keys: Vec::new(), originals: Vec::new() }
    }

    /// The identifier for diagnostics.
    pub fn name(&self) -> (name: &'static str)
        ensures
            name@ == self.label(),
    {
        self.name
    }

    /// The original bound to entry `idx`, which must have been claimed.
    pub fn get(&self, idx: usize) -> (f: F)
        requires
            self.wf(),
            idx < self.keys().len(),
        ensures
            f == self.originals()[idx as int],
    {
        self.originals[idx]
    }

    /// The hook instance bound to entry `idx`.
    pub fn hook(&self, idx: usize) -> (f: F)
        requires
            self.wf(),
            idx < N,
        ensures
            f == self.hooks()[idx as int],
    {
        self.hooks[idx]
    }

    /// Returns the entry `key` was claimed under, or `None` for a vtable that has never
    /// been seen before.
    pub fn lookup(&self, key: NonZeroUsize) -> (res: Option<usize>)
        requires
            self.wf(),
        ensures
            match res {
                Some(i) => position(self.keys(), key@) == Some(i as int) && i < self.keys().len(),
                None => position(self.keys(), key@) is None,
            },
    {
        let wanted: usize = key.get();
        let mut i: usize = 0;
        while i < self.keys.len()
            invariant
                i <= self.keys@.len(),
                wanted == key@,
                forall|j: int| 0 <= j < i ==> self.keys@[j] != wanted,
            decreases self.keys.len() - i,
        {
            if self.keys[i] == wanted {
                proof {
                    lemma_position(self.keys@, wanted);
                }
                return Some(i);
            }
            i += 1;
        }
        proof {
            lemma_position(self.keys@, wanted);
        }
        None
    }

    /// Claims an entry holding `original` for `key` (the vtable it was displaced from)
    /// and returns the index to install. A key that was already claimed keeps its entry
    /// and its first original. Returns `None` when the pool is exhausted.
    pub fn claim(&mut self, key: NonZeroUsize, original: F) -> (res: Option<usize>)
        requires
            old(self).wf(),
        ensures
            final(self).wf(),
            final(self).hooks() == old(self).hooks(),
            final(self).label() == old(self).label(),
            match position(old(self).keys(), key@) {
                Some(i) => res == Some(i as usize) && 0 <= i < old(self).keys().len()
                    && final(self).keys() == old(self).keys() && final(self).originals() == old(
                    self,
                ).originals(),
                None => if old(self).keys().len() < N {
                    res == Some(old(self).keys().len() as usize) && final(self).keys() == old(
                        self,
                    ).keys().push(key@) && final(self).originals() == old(self).originals().push(
                        original,
                    )
                } else {
                    res is None && final(self).keys() == old(self).keys()
                        && final(self).originals() == old(self).originals()
                },
            },
    {
        if let Some(idx) = self.lookup(key) {
            return Some(idx);
        }
        let idx: usize = self.keys.len();
        if idx >= N {
            return None;
        }
        let k: usize = key.get();
        proof {
            lemma_position(self.keys@, k);
        }
        self.keys.push(k);
        self.originals.push(original);
        Some(idx)
    }
}

/// A key that was claimed stays claimed under the same entry with the same original,
/// whatever is claimed later.
pub proof fn lemma_claims_never_evicted<F>(
    keys: Seq<usize>,
    originals: Seq<F>,
    key: usize,
    later_key: usize,
    later: F,
)
    requires
        keys.len() == originals.len(),
        position(keys, key) is Some,
    ensures
        position(keys.push(later_key), key) == position(keys, key),
        originals.push(later)[position(keys, key)->0] == originals[position(keys, key)->0],
{
    lemma_position(keys, key);
    assert(keys.push(later_key).drop_last() =~= keys);
}

/// What became of a slot that was to be patched.
#[derive(Clone, Copy, Debug, PartialEq, Eq, Structural)]
pub enum PatchOutcome {
    /// The hook was written over an original seen for the first time.
    Applied,
    /// The hook was written again; the original captured first is the one found now.
    Reapplied,
    /// The hook was written again over another value than the one captured first: a
    /// shim was layered between the two patches, and is skipped.
    Diverged,
    /// The slot already points into our own DLL.
    AlreadyOurs,
    /// There is no original to chain through.
    NullSlot,
    /// Every entry of the pool belongs to another vtable.
    PoolFull,
}

impl PatchOutcome {
    /// Whether the hook stands in the slot because of this visit.
    pub open spec fn wrote(self) -> bool {
        self is Applied || self is Reapplied || self is Diverged
    }
}

/// What became of a slot that was to be read.
#[derive(Clone, Copy, Debug, PartialEq, Eq, Structural)]
pub enum CaptureOutcome {
    Captured,
    /// The same value was captured before.
    Skipped,
    /// Another value was captured before and is kept.
    Diverged,
    /// The slot is null and nothing is captured.
    Null,
}

/// What is captured after a visit that only reads a slot holding `value`.
pub open spec fn after_capture(kept: Option<u32>, value: u32) -> Option<u32> {
    if kept is Some {
        kept
    } else if value != 0 {
        Some(value)
    } else {
        None
    }
}

/// The patching of one vtable.
#[derive(Clone, Copy, Debug)]
pub struct VtblScope {
    /// The vtable's address.
    pub key: NonZeroUsize,
    /// Where our own DLL is loaded.
    pub our_range: Option<ModuleRange>,
    /// The module that implements the vtable's functions.
    pub expected_range: Option<ModuleRange>,
}

impl VtblScope {
    /// Whether `value` points into our own DLL.
    pub open spec fn ours(self, value: u32) -> bool {
        self.our_range is Some && self.our_range->0.has(value as int)
    }

    /// Whether a slot that holds `value` can be intercepted.
    pub open spec fn interceptable(self, value: u32) -> bool {
        !self.ours(value) && value != 0
    }

    /// What is captured after a visit that patches a slot holding `value`.
    pub open spec fn after_intercept(self, kept: Option<u32>, value: u32) -> Option<u32> {
        if self.interceptable(value) {
            after_capture(kept, value)
        } else {
            kept
        }
    }

    /// What a slot holding `value` holds after it was to be patched with `hook`.
    pub open spec fn slot_after(self, value: u32, hook: u32) -> u32 {
        if self.interceptable(value) {
            hook
        } else {
            value
        }
    }

    /// Reads the slot value, refusing one that is already ours or null.
    fn resolve_slot(&self, current: u32) -> (res: Result<u32, PatchOutcome>)
        ensures
            res == if self.ours(current) {
                Err(PatchOutcome::AlreadyOurs)
            } else if current == 0 {
                Err(PatchOutcome::NullSlot)
            } else {
                Ok(current)
            },
    {
        if let Some(ours) = self.our_range {
            if ours.contains(current) {
                return Err(PatchOutcome::AlreadyOurs);
            }
        }
        if current == 0 {
            return Err(PatchOutcome::NullSlot);
        }
        Ok(current)
    }

    /// Captures the displaced original into `original` and writes `hook` over it.
    pub fn intercept(
        &self,
        vtbl: &mut Vec<u32>,
        index: usize,
        original: &mut FnSlot<u32>,
        hook: u32,
    ) -> (outcome: PatchOutcome)
        requires
            index < old(vtbl)@.len(),
        ensures
            final(original).label() == old(original).label(),
            ({
                let current = old(vtbl)@[index as int];
                &&& final(vtbl)@ == old(vtbl)@.update(
                    index as int,
                    self.slot_after(current, hook),
                )
                &&& final(original)@ == self.after_intercept(old(original)@, current)
                &&& outcome == if self.ours(current) {
                    PatchOutcome::AlreadyOurs
                } else if current == 0 {
                    PatchOutcome::NullSlot
                } else {
                    match old(original)@ {
                        Some(kept) => if kept == current {
                            PatchOutcome::Reapplied
                        } else {
                            PatchOutcome::Diverged
                        },
                        None => PatchOutcome::Applied,
                    }
                }
            }),
    {
        let current: u32 = match self.resolve_slot(vtbl[index]) {
            Ok(current) => current,
            Err(outcome) => {
                assert(vtbl@ =~= vtbl@.update(index as int, vtbl@[index as int]));
                return outcome;
            },
        };
        let outcome = match original.try_get() {
            Some(kept) => if kept == current {
                PatchOutcome::Reapplied
            } else {
                PatchOutcome::Diverged
            },
            None => {
                original.store(current);
                PatchOutcome::Applied
            },
        };
        vtbl.set(index, hook);
        outcome
    }

    /// Like [`VtblScope::intercept`], but for a slot patched across several genuinely
    /// distinct vtables.
    pub fn intercept_indexed<const N: usize>(
        &self,
        vtbl: &mut Vec<u32>,
        index: usize,
        originals: &mut IndexedFnSlots<u32, N>,
    ) -> (outcome: PatchOutcome)
        requires
            index < old(vtbl)@.len(),
            old(originals).wf(),
        ensures
            final(originals).wf(),
            final(originals).hooks() == old(originals).hooks(),
            final(originals).label() == old(originals).label(),
            ({
                let current = old(vtbl)@[index as int];
                let hooks = old(originals).hooks();
                let known = position(old(originals).keys(), self.key@);
                if !self.interceptable(current) {
                    &&& final(vtbl)@ == old(vtbl)@
                    &&& *final(originals) == *old(originals)
                    &&& outcome == if self.ours(current) {
                        PatchOutcome::AlreadyOurs
                    } else {
                        PatchOutcome::NullSlot
                    }
                } else if known is Some {
                    &&& final(vtbl)@ == old(vtbl)@.update(index as int, hooks[known->0])
                    &&& final(originals).keys() == old(originals).keys()
                    &&& final(originals).originals() == old(originals).originals()
                    &&& outcome == if old(originals).originals()[known->0] == current {
                        PatchOutcome::Reapplied
                    } else {
                        PatchOutcome::Diverged
                    }
                } else if old(originals).keys().len() < N {
                    let fresh = old(originals).keys().len() as int;
                    &&& final(vtbl)@ == old(vtbl)@.update(index as int, hooks[fresh])
                    &&& final(originals).keys() == old(originals).keys().push(self.key@)
                    &&& final(originals).originals() == old(originals).originals().push(current)
                    &&& outcome == PatchOutcome::Applied
                } else {
                    &&& final(vtbl)@ == old(vtbl)@
                    &&& final(originals).keys() == old(originals).keys()
                    &&& final(originals).originals() == old(originals).originals()
                    &&& outcome == PatchOutcome::PoolFull
                }
            }),
    {
        let current: u32 = match self.resolve_slot(vtbl[index]) {
            Ok(current) => current,
            Err(outcome) => {
                return outcome;
            },
        };
        if let Some(idx) = originals.lookup(self.key) {
            let outcome = if originals.get(idx) == current {
                PatchOutcome::Reapplied
            } else {
                PatchOutcome::Diverged
            };
            vtbl.set(index, originals.hook(idx));
            return outcome;
        }
        match originals.claim(self.key, current) {
            Some(idx) => {
                vtbl.set(index, originals.hook(idx));
                PatchOutcome::Applied
            },
            None => PatchOutcome::PoolFull,
        }
    }

    /// Reads a slot we call through but don't patch. A revisit keeps the value captured
    /// first.
    pub fn capture(&self, vtbl: &Vec<u32>, index: usize, dst: &mut FnSlot<u32>) -> (outcome:
        CaptureOutcome)
        requires
            index < vtbl@.len(),
        ensures
            final(dst).label() == old(dst).label(),
            ({
                let current = vtbl@[index as int];
                &&& final(dst)@ == after_capture(old(dst)@, current)
                &&& outcome == match old(dst)@ {
                    Some(kept) => if kept == current {
                        CaptureOutcome::Skipped
                    } else {
                        CaptureOutcome::Diverged
                    },
                    None => if current != 0 {
                        CaptureOutcome::Captured
                    } else {
                        CaptureOutcome::Null
                    },
                }
            }),
    {
        let current: u32 = vtbl[index];
        if let Some(kept) = dst.try_get() {
            return if kept == current {
                CaptureOutcome::Skipped
            } else {
                CaptureOutcome::Diverged
            };
        }
        if current != 0 {
            dst.store(current);
            CaptureOutcome::Captured
        } else {
            CaptureOutcome::Null
        }
    }

    /// Returns whether the displaced `original` of a written slot lies outside the module
    /// that implements the vtable, so that someone else is being chained through.
    pub fn chains_through(&self, outcome: PatchOutcome, original: u32) -> (res: bool)
        ensures
            res == (outcome.wrote() && !(self.expected_range is Some && self.expected_range->0.has(
                original as int,
            ))),
    {
        let wrote = match outcome {
            PatchOutcome::Applied | PatchOutcome::Reapplied | PatchOutcome::Diverged => true,
            _ => false,
        };
        let expected = match self.expected_range {
            Some(range) => range.contains(original),
            None => false,
        };
        wrote && !expected
    }
}

/// Once a hook inside our DLL stands in a slot, visiting the slot again changes
/// nothing.
pub proof fn lemma_patch_idempotent(
    scope: VtblScope,
    hook: u32,
    kept: Option<u32>,
    other: u32,
)
    requires
        scope.ours(hook),
    ensures
        scope.slot_after(hook, other) == hook,
        scope.after_intercept(kept, hook) == kept,
{
}

/// What was captured once is never replaced, and a null slot captures nothing: whatever is
/// held is the first value that was not null.
pub proof fn lemma_first_capture_stays(kept: Option<u32>, value: u32, later: u32)
    ensures
        kept is Some ==> after_capture(kept, value) == kept,
        after_capture(None, value) is Some <==> value != 0,
        after_capture(None, value) is Some ==> after_capture(None, value)->0 == value,
        after_capture(after_capture(None, 0), later) == after_capture(None, later),
{
}

/// A value is ours when it lies from the start of our DLL up to its end. Such a slot and a
/// null one keep their value and capture nothing; every other slot gets the hook, and what it
/// held is captured unless something was before.
pub proof fn lemma_slot_visit(scope: VtblScope, kept: Option<u32>, value: u32, hook: u32)
    ensures
        scope.ours(value) <==> scope.our_range is Some && scope.our_range->0.base <= value
            < scope.our_range->0.end,
        scope.ours(value) || value == 0 ==> scope.slot_after(value, hook) == value
            && scope.after_intercept(kept, value) == kept,
        !scope.ours(value) && value != 0 ==> scope.slot_after(value, hook) == hook
            && scope.after_intercept(kept, value) == Some(
            if kept is Some {
                kept->0
            } else {
                value
            },
        ),
        scope.our_range is None && value != 0 ==> scope.interceptable(value),
{
}

/// The outcomes after which the hook stands in the slot.
pub proof fn lemma_outcomes_written()
    ensures
        PatchOutcome::Applied.wrote(),
        PatchOutcome::Reapplied.wrote(),
        PatchOutcome::Diverged.wrote(),
        !PatchOutcome::AlreadyOurs.wrote(),
        !PatchOutcome::NullSlot.wrote(),
        !PatchOutcome::PoolFull.wrote(),
{
}

} // verus!
