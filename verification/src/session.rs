//! Tracking of the game's `IDirect3D9Ex` and device.
//!
//! Every object in the process reaches the patched vtables, so each hook must tell
//! the game's objects from foreign ones. The game's objects are recorded at the
//! game-only creation paths. Each recorded object is pinned by one COM reference that
//! we own, taken on record and released on overwrite, so that its allocation cannot be
//! recycled into a foreign object while recorded.

use vstd::prelude::*;
use crate::nonzero::NonZeroUsize;
use crate::thread::{MainThread, MainToken};

verus! {

/// The COM calls that go with a change of a record.
#[derive(Clone, Copy, Debug, PartialEq, Eq, Structural)]
pub struct PinChange {
    /// The object to take a reference on.
    pub add_ref: Option<NonZeroUsize>,
    /// The object whose reference is given back.
    pub release: Option<NonZeroUsize>,
}

/// The address of an optional object, 0 standing for none.
pub open spec fn addr_of(p: Option<NonZeroUsize>) -> usize {
    match p {
        Some(p) => p@,
        None => 0,
    }
}

/// 1 when `p` is the object at `addr`, else 0.
pub open spec fn counts(p: Option<NonZeroUsize>, addr: usize) -> int {
    if p is Some && p->0@ == addr {
        1
    } else {
        0
    }
}

/// The game's objects and the references we own on them.
pub struct Session {
    d3d9: usize,
    device: usize,
    d3d9_pin: Option<NonZeroUsize>,
    device_pin: Option<NonZeroUsize>,
}

impl Session {
    /// The recorded `IDirect3D9Ex`, 0 for none.
    pub closed spec fn d3d9(self) -> usize {
        self.d3d9
    }

    /// The recorded device, 0 for none.
    pub closed spec fn device(self) -> usize {
        self.device
    }

    /// The pinned `IDirect3D9Ex`.
    pub closed spec fn d3d9_pin(self) -> Option<NonZeroUsize> {
        self.d3d9_pin
    }

    /// The pinned device.
    pub closed spec fn device_pin(self) -> Option<NonZeroUsize> {
        self.device_pin
    }

    /// How many references we own on the object at `addr`.
    pub open spec fn owned(self, addr: usize) -> int {
        counts(self.d3d9_pin(), addr) + counts(self.device_pin(), addr)
    }

    /// What is pinned is recorded. Only a device can be recorded without a pin: while a
    /// replacement for it is being created.
    pub open spec fn wf(self) -> bool {
        &&& self.d3d9() == addr_of(self.d3d9_pin())
        &&& self.device_pin() is Some ==> self.device() == self.device_pin()->0@
    }

    /// Nothing is recorded.
    pub fn new() -> (session: Session)
        ensures
            session.wf(),
            session.d3d9() == 0,
            session.device() == 0,
            session.d3d9_pin() is None,
            session.device_pin() is None,
    {
        Session { d3d9: 0, device: 0, d3d9_pin: None, device_pin: None }
    }

    /// Records `d3d9` as the game's `IDirect3D9Ex`. Replacement is legal: a game may
    /// create, probe, release, and create again. The released object is the one replaced.
    pub fn record_d3d9(&mut self, tok: &MainToken, d3d9: NonZeroUsize) -> (change: PinChange)
        requires
            old(self).wf(),
        ensures
            final(self).wf(),
            final(self).d3d9() == d3d9@,
            final(self).d3d9_pin() is Some,
            final(self).device() == old(self).device(),
            final(self).device_pin() == old(self).device_pin(),
            old(self).d3d9() == d3d9@ ==> change.add_ref is None && change.release is None,
            old(self).d3d9() != d3d9@ ==> change.add_ref == Some(d3d9) && change.release == old(
                self,
            ).d3d9_pin(),
            forall|p: usize| #[trigger]
                final(self).owned(p) == old(self).owned(p) + counts(change.add_ref, p) - counts(
                    change.release,
                    p,
                ),
    {
        let change = record(self.d3d9_pin, d3d9);
        if change.add_ref.is_some() {
            self.d3d9_pin = Some(d3d9);
            self.d3d9 = d3d9.get();
        }
        change
    }

    /// Releases the device pin at the start of a replacement attempt. The device stays
    /// recorded, so that it is still recognized if the replacement fails.
    pub fn device_creating(&mut self, tok: &MainToken) -> (change: PinChange)
        requires
            old(self).wf(),
        ensures
            final(self).wf(),
            final(self).d3d9() == old(self).d3d9(),
            final(self).d3d9_pin() == old(self).d3d9_pin(),
            final(self).device() == old(self).device(),
            final(self).device_pin() is None,
            change == (PinChange { add_ref: None, release: old(self).device_pin() }),
            forall|p: usize| #[trigger]
                final(self).owned(p) == old(self).owned(p) - counts(change.release, p),
    {
        let release = self.device_pin;
        self.device_pin = None;
        PinChange { add_ref: None, release }
    }

    /// Records `dev` as the game's device after a successful create or reset.
    pub fn record_device(&mut self, tok: &MainToken, dev: NonZeroUsize) -> (change: PinChange)
        requires
            old(self).wf(),
        ensures
            final(self).wf(),
            final(self).device() == dev@,
            final(self).device_pin() is Some,
            final(self).d3d9() == old(self).d3d9(),
            final(self).d3d9_pin() == old(self).d3d9_pin(),
            old(self).device_pin() is Some && old(self).device_pin()->0@ == dev@
                ==> change.add_ref is None && change.release is None,
            !(old(self).device_pin() is Some && old(self).device_pin()->0@ == dev@)
                ==> change.add_ref == Some(dev) && change.release == old(self).device_pin(),
            forall|p: usize| #[trigger]
                final(self).owned(p) == old(self).owned(p) + counts(change.add_ref, p) - counts(
                    change.release,
                    p,
                ),
    {
        let change = record(self.device_pin, dev);
        if change.add_ref.is_some() {
            self.device_pin = Some(dev);
            self.device = dev.get();
        }
        change
    }

    /// Returns the pinned device.
    pub fn pinned_device(&self, tok: &MainToken) -> (res: Option<NonZeroUsize>)
        ensures
            res == self.device_pin(),
    {
        self.device_pin
    }

    /// Returns whether `this` is the game's current `IDirect3D9Ex`.
    pub fn is_game_d3d9(&self, this: usize) -> (res: bool)
        ensures
            res == (this != 0 && this == self.d3d9()),
    {
        matched(self.d3d9, this)
    }

    /// Returns whether `this` is the game's current device.
    pub fn is_game_device(&self, this: usize) -> (res: bool)
        ensures
            res == (this != 0 && this == self.device()),
    {
        matched(self.device, this)
    }

    /// Returns a token if `this` is the game's current `IDirect3D9Ex` and thread `tid` is
    /// the render thread.
    pub fn gate_d3d9(&self, this: usize, main: &MainThread, tid: u32) -> (res: Option<MainToken>)
        ensures
            res is Some <==> this != 0 && this == self.d3d9() && main@ != 0 && main@ == tid,
            res is Some ==> res->0@ == tid,
    {
        if !self.is_game_d3d9(this) {
            return None;
        }
        main.current(tid)
    }

    /// Returns a token and `this` if it is the game's current device and thread `tid` is
    /// the render thread.
    pub fn gate_device(&self, this: usize, main: &MainThread, tid: u32) -> (res: Option<
        (MainToken, NonZeroUsize),
    >)
        ensures
            res is Some <==> this != 0 && this == self.device() && main@ != 0 && main@ == tid,
            res is Some ==> (res->0).0@ == tid && (res->0).1@ == this,
    {
        if !self.is_game_device(this) {
            return None;
        }
        let dev = match NonZeroUsize::new(this) {
            Some(dev) => dev,
            None => {
                return None;
            },
        };
        match main.current(tid) {
            Some(tok) => Some((tok, dev)),
            None => None,
        }
    }
}

/// The COM calls for replacing the pinned object by `new`; none when it is pinned
/// already.
fn record(pinned: Option<NonZeroUsize>, new: NonZeroUsize) -> (change: PinChange)
    ensures
        change == if addr_of(pinned) == new@ && pinned is Some {
            PinChange { add_ref: None, release: None }
        } else {
            PinChange { add_ref: Some(new), release: pinned }
        },
        new@ != 0,
{
    let addr: usize = new.get();
    if let Some(old_pin) = pinned {
        if old_pin.get() == addr {
            return PinChange { add_ref: None, release: None };
        }
    }
    PinChange { add_ref: Some(new), release: pinned }
}

fn matched(recorded: usize, this: usize) -> (res: bool)
    ensures
        res == (this != 0 && this == recorded),
{
    this != 0 && this == recorded
}

/// An object's address is its own, and the lack of one is zero.
pub proof fn lemma_addresses(p: NonZeroUsize, addr: usize)
    ensures
        addr_of(Some(p)) == p@,
        addr_of(None) == 0,
        counts(Some(p), p@) == 1,
        addr != p@ ==> counts(Some(p), addr) == 0,
        counts(None, addr) == 0,
{
}

/// The references that are owned are one for each pin on the object.
pub proof fn lemma_owned(session: Session, addr: usize)
    ensures
        session.owned(addr) == (if session.d3d9_pin() is Some && session.d3d9_pin()->0@ == addr {
            1int
        } else {
            0
        }) + (if session.device_pin() is Some && session.device_pin()->0@ == addr {
            1int
        } else {
            0
        }),
        0 <= session.owned(addr) <= 2,
{
}

} // verus!
