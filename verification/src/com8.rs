//! Life and death of the Direct3D 8 wrapper objects.
//!
//! A live wrapper holds the game-facing reference count together with the wrapped D3D9
//! object, on which it owns exactly one reference for its whole live period. A dead
//! wrapper stays behind to catch calls on what the game has released. A live resource
//! holds a reference on its device, and a live device one on its parent.

use vstd::prelude::*;
use crate::d3d;
use crate::d3d::{is_ok, HResult, D3DERR_INVALIDCALL, D3D_OK};
use crate::nonzero::{NonZeroU32, NonZeroUsize};

verus! {

/// The surface is directly lockable (bit 26 of the internal flags).
pub const D3D8_INTERNAL_LOCKABLE: u32 = 0x400_0000;

/// Liveness and ownership state of a wrapper.
#[derive(Clone, Copy, Debug, PartialEq, Eq, Structural)]
pub enum WrapperState {
    Dead,
    Alive { game_refs: NonZeroU32, inner: NonZeroUsize },
}

/// Common part of every wrapper object.
#[derive(Clone, Copy, Debug, PartialEq, Eq, Structural)]
pub struct ComHeader {
    state: WrapperState,
}

/// What releasing a reference on a wrapper did.
#[derive(Clone, Copy, Debug, PartialEq, Eq, Structural)]
pub enum ReleaseOutcome {
    /// The wrapper was dead already.
    OverRelease,
    /// References remain.
    Remaining(u32),
    /// That was the last one: the wrapper dies, and its reference on the wrapped object is
    /// to be released.
    Died { inner: NonZeroUsize },
}

impl ReleaseOutcome {
    /// The count that the game is told; over-releases count 0.
    pub open spec fn count(self) -> u32 {
        match self {
            ReleaseOutcome::Remaining(n) => n,
            _ => 0,
        }
    }
}

impl ComHeader {
    /// The game-facing reference count, 0 when dead.
    pub closed spec fn refs(self) -> u32 {
        match self.state {
            WrapperState::Alive { game_refs, .. } => game_refs@,
            WrapperState::Dead => 0,
        }
    }

    /// The wrapped object.
    pub closed spec fn wrapped(self) -> Option<NonZeroUsize> {
        match self.state {
            WrapperState::Alive { inner, .. } => Some(inner),
            WrapperState::Dead => None,
        }
    }

    /// A live wrapper has references, a dead one has none.
    pub open spec fn wf(self) -> bool {
        self.refs() > 0 <==> self.wrapped() is Some
    }

    /// A wrapper with one reference around `inner`.
    pub fn new_alive(inner: NonZeroUsize) -> (header: ComHeader)
        ensures
            header.wf(),
            header.refs() == 1,
            header.wrapped() == Some(inner),
    {
        match NonZeroU32::new(1) {
            Some(game_refs) => ComHeader { state: WrapperState::Alive { game_refs, inner } },
            None => ComHeader { state: WrapperState::Dead },
        }
    }

    /// A dead wrapper.
    pub fn new_dead() -> (header: ComHeader)
        ensures
            header.wf(),
            header.refs() == 0,
            header.wrapped() is None,
    {
        ComHeader { state: WrapperState::Dead }
    }

    /// The wrapped object, or `None` when the wrapper is dead.
    pub fn inner(&self) -> (res: Option<NonZeroUsize>)
        ensures
            res == self.wrapped(),
    {
        match self.state {
            WrapperState::Alive { inner, .. } => Some(inner),
            WrapperState::Dead => None,
        }
    }

    /// The game-facing reference count (0 when dead).
    pub fn game_refs(&self) -> (res: u32)
        ensures
            res == self.refs(),
    {
        match self.state {
            WrapperState::Alive { game_refs, .. } => game_refs.get(),
            WrapperState::Dead => 0,
        }
    }

    /// Adds a reference and returns the new count. A dead wrapper stays dead: its wrapped
    /// object is gone, and reviving it would hand out a dangling reference.
    pub fn add_ref(&mut self) -> (count: u32)
        requires
            old(self).wf(),
            old(self).refs() < u32::MAX,
        ensures
            final(self).wf(),
            final(self).wrapped() == old(self).wrapped(),
            final(self).refs() == if old(self).wrapped() is Some {
                (old(self).refs() + 1) as u32
            } else {
                0
            },
            count == final(self).refs(),
    {
        match self.state {
            WrapperState::Dead => 0,
            WrapperState::Alive { game_refs, inner } => {
                let n: u32 = game_refs.get() + 1;
                if let Some(more) = NonZeroU32::new(n) {
                    self.state = WrapperState::Alive { game_refs: more, inner };
                }
                n
            },
        }
    }

    /// Drops one game-facing reference. The last one kills the wrapper.
    pub fn release(&mut self) -> (outcome: ReleaseOutcome)
        requires
            old(self).wf(),
        ensures
            final(self).wf(),
            match outcome {
                ReleaseOutcome::OverRelease => old(self).refs() == 0 && *final(self) == *old(self),
                ReleaseOutcome::Remaining(n) => n == old(self).refs() - 1 && n > 0
                    && final(self).refs() == n && final(self).wrapped() == old(self).wrapped(),
                ReleaseOutcome::Died { inner } => old(self).refs() == 1 && old(self).wrapped()
                    == Some(inner) && final(self).refs() == 0 && final(self).wrapped() is None,
            },
    {
        match self.state {
            WrapperState::Dead => ReleaseOutcome::OverRelease,
            WrapperState::Alive { game_refs, inner } => {
                let n: u32 = game_refs.get() - 1;
                match NonZeroU32::new(n) {
                    Some(rest) => {
                        self.state = WrapperState::Alive { game_refs: rest, inner };
                        ReleaseOutcome::Remaining(n)
                    },
                    None => {
                        self.state = WrapperState::Dead;
                        ReleaseOutcome::Died { inner }
                    },
                }
            },
        }
    }
}

/// Unwraps an argument-position wrapper. No wrapper passes through as null, a live one
/// yields its inner object, and a dead one (something the game has fully released) is
/// refused.
pub fn unwrap8_arg(wrapper: Option<&ComHeader>) -> (res: Result<usize, HResult>)
    ensures
        res == match wrapper {
            None => Ok(0),
            Some(header) => match header.wrapped() {
                Some(inner) => Ok(inner@),
                None => Err(D3DERR_INVALIDCALL),
            },
        },
{
    match wrapper {
        None => Ok(0),
        Some(header) => match header.inner() {
            Some(inner) => Ok(inner.get()),
            None => Err(D3DERR_INVALIDCALL),
        },
    }
}

/// Unwraps the receiver of a call: `None` for no wrapper or a dead one.
pub fn unwrap8(wrapper: Option<&ComHeader>) -> (res: Option<NonZeroUsize>)
    ensures
        res == match wrapper {
            Some(header) => header.wrapped(),
            None => None,
        },
{
    match wrapper {
        Some(header) => header.inner(),
        None => None,
    }
}

/// Methods by what they give back.
#[derive(Clone, Copy, Debug, PartialEq, Eq, Structural)]
pub enum MethodKind {
    Status,
    Count,
    Nothing,
}

impl MethodKind {
    /// The answer of a method that is called on a dead wrapper: a refusal where there is a
    /// status, else zero.
    pub open spec fn dead_answer(self) -> i32 {
        match self {
            MethodKind::Status => D3DERR_INVALIDCALL,
            MethodKind::Count | MethodKind::Nothing => 0,
        }
    }

    /// The answer of a method that is called on a dead wrapper.
    pub fn dead(self) -> (answer: i32)
        ensures
            answer == self.dead_answer(),
    {
        match self {
            MethodKind::Status => D3DERR_INVALIDCALL,
            MethodKind::Count | MethodKind::Nothing => 0,
        }
    }
}

/// Unwraps the receiver of a method that is forwarded, or gives the answer of one that is
/// not: nothing is called on a dead wrapper.
pub fn forward_to(receiver: Option<&ComHeader>, kind: MethodKind) -> (res: Result<usize, i32>)
    ensures
        res == match receiver {
            Some(header) => match header.wrapped() {
                Some(inner) => Ok(inner@),
                None => Err(kind.dead_answer()),
            },
            None => Err(kind.dead_answer()),
        },
{
    match unwrap8(receiver) {
        Some(inner) => Ok(inner.get()),
        None => Err(kind.dead()),
    }
}

/// Unwraps the receiver and one argument of a call that forwards both. A dead receiver
/// and a dead argument are refused before the wrapped receiver is touched.
pub fn forward_with_arg(receiver: &ComHeader, arg: Option<&ComHeader>) -> (res: Result<
    (usize, usize),
    HResult,
>)
    ensures
        res == match receiver.wrapped() {
            Some(dev) => match arg {
                None => Ok((dev@, 0)),
                Some(header) => match header.wrapped() {
                    Some(inner) => Ok((dev@, inner@)),
                    None => Err(D3DERR_INVALIDCALL),
                },
            },
            None => Err(D3DERR_INVALIDCALL),
        },
{
    match receiver.inner() {
        Some(dev) => match unwrap8_arg(arg) {
            Ok(inner) => Ok((dev.get(), inner)),
            Err(hr) => Err(hr),
        },
        None => Err(D3DERR_INVALIDCALL),
    }
}

/// The objects above a resource: its device, and the device's parent.
#[derive(Clone, Copy, Debug, PartialEq, Eq, Structural)]
pub struct Owners {
    pub device: Option<ComHeader>,
    pub parent: Option<ComHeader>,
}

/// Whether an optional header is well-formed and can take one more reference.
pub open spec fn header_wf(header: Option<ComHeader>) -> bool {
    header is Some ==> header->0.wf()
}

/// The references on an optional header.
pub open spec fn refs_of(header: Option<ComHeader>) -> u32 {
    match header {
        Some(h) => h.refs(),
        None => 0,
    }
}

/// The object wrapped by an optional header.
pub open spec fn wrapped_of(header: Option<ComHeader>) -> Option<NonZeroUsize> {
    match header {
        Some(h) => h.wrapped(),
        None => None,
    }
}

impl Owners {
    pub open spec fn wf(self) -> bool {
        header_wf(self.device) && header_wf(self.parent)
    }
}

/// The references on `owner` after one more was taken; a missing or dead owner takes
/// none.
pub open spec fn refs_plus(owner: Option<ComHeader>) -> int {
    if refs_of(owner) > 0 {
        refs_of(owner) + 1
    } else {
        0
    }
}

/// The references on `owner` after one was given back.
pub open spec fn refs_minus(owner: Option<ComHeader>) -> int {
    if refs_of(owner) > 0 {
        refs_of(owner) - 1
    } else {
        0
    }
}

/// What `owner` wraps after one reference was given back: nothing once the last is gone.
pub open spec fn wrapped_minus(owner: Option<ComHeader>) -> Option<NonZeroUsize> {
    if refs_of(owner) == 1 {
        None
    } else {
        wrapped_of(owner)
    }
}

fn add_ref_owner(owner: &mut Option<ComHeader>)
    requires
        header_wf(*old(owner)),
        refs_of(*old(owner)) < u32::MAX,
    ensures
        header_wf(*final(owner)),
        (*final(owner)) is Some <==> (*old(owner)) is Some,
        wrapped_of(*final(owner)) == wrapped_of(*old(owner)),
        refs_of(*final(owner)) == refs_plus(*old(owner)),
{
    if let Some(header) = *owner {
        let mut h = header;
        h.add_ref();
        *owner = Some(h);
    }
}

/// What releasing a wrapper did: the count that the game is told, and the wrapped
/// objects whose references are to be released, in order.
#[derive(Debug)]
pub struct Released {
    pub count: u32,
    pub inner: Vec<NonZeroUsize>,
}

/// The wrapped object of `header` if a release kills it.
pub open spec fn death_of(header: Option<ComHeader>) -> Seq<NonZeroUsize> {
    if refs_of(header) == 1 {
        seq![wrapped_of(header)->0]
    } else {
        seq![]
    }
}

/// Releases a reference on the parent.
pub fn d3d8_release(owners: &mut Owners) -> (released: Released)
    requires
        old(owners).wf(),
    ensures
        final(owners).wf(),
        final(owners).device == old(owners).device,
        final(owners).parent is Some <==> old(owners).parent is Some,
        refs_of(final(owners).parent) == refs_minus(old(owners).parent),
        wrapped_of(final(owners).parent) == wrapped_minus(old(owners).parent),
        released.count == refs_minus(old(owners).parent),
        released.inner@ == death_of(old(owners).parent),
{
    let mut inner: Vec<NonZeroUsize> = Vec::new();
    let mut count: u32 = 0;
    if let Some(header) = owners.parent {
        let mut h = header;
        match h.release() {
            ReleaseOutcome::OverRelease => {},
            ReleaseOutcome::Remaining(n) => {
                count = n;
            },
            ReleaseOutcome::Died { inner: dead } => {
                inner.push(dead);
            },
        }
        owners.parent = Some(h);
    }
    Released { count, inner }
}

/// Releases a reference on the device; a device that dies gives back its reference on
/// the parent.
pub fn device8_release(owners: &mut Owners) -> (released: Released)
    requires
        old(owners).wf(),
    ensures
        final(owners).wf(),
        final(owners).device is Some <==> old(owners).device is Some,
        final(owners).parent is Some <==> old(owners).parent is Some,
        refs_of(final(owners).device) == refs_minus(old(owners).device),
        wrapped_of(final(owners).device) == wrapped_minus(old(owners).device),
        released.count == refs_minus(old(owners).device),
        refs_of(old(owners).device) == 1 ==> {
            &&& refs_of(final(owners).parent) == refs_minus(old(owners).parent)
            &&& wrapped_of(final(owners).parent) == wrapped_minus(old(owners).parent)
            &&& released.inner@ == death_of(old(owners).device) + death_of(old(owners).parent)
        },
        refs_of(old(owners).device) != 1 ==> final(owners).parent == old(owners).parent
            && released.inner@.len() == 0,
{
    let mut inner: Vec<NonZeroUsize> = Vec::new();
    let mut count: u32 = 0;
    if let Some(header) = owners.device {
        let mut h = header;
        let outcome = h.release();
        owners.device = Some(h);
        match outcome {
            ReleaseOutcome::OverRelease => {},
            ReleaseOutcome::Remaining(n) => {
                count = n;
            },
            ReleaseOutcome::Died { inner: dead } => {
                inner.push(dead);
                let mut above = d3d8_release(owners);
                inner.append(&mut above.inner);
            },
        }
    }
    Released { count, inner }
}

/// A wrapper for a Direct3D 8 resource.
#[derive(Clone, Copy, Debug, PartialEq, Eq, Structural)]
pub struct Resource8 {
    pub header: ComHeader,
    /// The internal flags that th08's D3DX8 reads directly.
    pub internal_flags: u32,
}

/// How many references a resource holds on its device: one while it is alive.
pub open spec fn held_by(header: ComHeader) -> int {
    if header.wrapped() is Some {
        1
    } else {
        0
    }
}

/// The internal flags of a surface.
pub open spec fn flags_of(lockable: bool) -> u32 {
    if lockable {
        D3D8_INTERNAL_LOCKABLE
    } else {
        0
    }
}

/// What taking over a surface reference did.
#[derive(Clone, Copy, Debug, PartialEq, Eq, Structural)]
pub struct Adoption {
    pub adopted: bool,
    /// A surface reference that is redundant and to be released.
    pub release: Option<NonZeroUsize>,
}

impl Resource8 {
    /// A wrapper with one reference around `inner`, which takes a reference on its device.
    pub fn new_raw(inner: NonZeroUsize, owners: &mut Owners, lockable: bool) -> (res: Resource8)
        requires
            old(owners).wf(),
            refs_of(old(owners).device) < u32::MAX,
        ensures
            final(owners).wf(),
            final(owners).parent == old(owners).parent,
            final(owners).device is Some <==> old(owners).device is Some,
            refs_of(final(owners).device) == refs_plus(old(owners).device),
            wrapped_of(final(owners).device) == wrapped_of(old(owners).device),
            res.header.wf(),
            res.header.refs() == 1,
            res.header.wrapped() == Some(inner),
            res.internal_flags == flags_of(lockable),
    {
        add_ref_owner(&mut owners.device);
        let internal_flags: u32 = if lockable {
            D3D8_INTERNAL_LOCKABLE
        } else {
            0
        };
        Resource8 { header: ComHeader::new_alive(inner), internal_flags }
    }

    /// A dead surface wrapper, as it is embedded in a device until a surface is adopted.
    pub fn new_dead() -> (res: Resource8)
        ensures
            res.header.wf(),
            res.header.refs() == 0,
            res.header.wrapped() is None,
            res.internal_flags == D3D8_INTERNAL_LOCKABLE,
    {
        Resource8 { header: ComHeader::new_dead(), internal_flags: D3D8_INTERNAL_LOCKABLE }
    }

    /// Takes over the caller's freshly acquired surface reference and mints the game's
    /// reference on the wrapper, reviving the wrapper if dead.
    ///
    /// - Dead: the incoming reference becomes the single owned one, a reference is taken
    ///   on the device for the new live period, and the count starts at 1.
    /// - Alive with the same surface: the incoming reference is redundant and released;
    ///   only the count grows.
    /// - Alive with a different surface: refused. The incoming reference is released and
    ///   the wrapper is left untouched.
    pub fn adopt(&mut self, owners: &mut Owners, incoming: NonZeroUsize) -> (res: Adoption)
        requires
            old(self).header.wf(),
            old(self).header.refs() < u32::MAX,
            old(owners).wf(),
            refs_of(old(owners).device) < u32::MAX,
        ensures
            final(self).header.wf(),
            final(owners).wf(),
            final(self).internal_flags == old(self).internal_flags,
            final(owners).parent == old(owners).parent,
            final(owners).device is Some <==> old(owners).device is Some,
            // The references on the device beside the resource's own are as before.
            refs_of(old(owners).device) > 0 ==> refs_of(final(owners).device) - held_by(
                final(self).header,
            ) == refs_of(old(owners).device) - held_by(old(self).header),
            match old(self).header.wrapped() {
                None => {
                    &&& res == (Adoption { adopted: true, release: None })
                    &&& final(self).header.refs() == 1
                    &&& final(self).header.wrapped() == Some(incoming)
                    &&& refs_of(final(owners).device) == refs_plus(old(owners).device)
                    &&& wrapped_of(final(owners).device) == wrapped_of(old(owners).device)
                },
                Some(inner) => if inner@ == incoming@ {
                    &&& res == (Adoption { adopted: true, release: Some(incoming) })
                    &&& final(self).header.refs() == old(self).header.refs() + 1
                    &&& final(self).header.wrapped() == old(self).header.wrapped()
                    &&& final(owners).device == old(owners).device
                } else {
                    &&& res == (Adoption { adopted: false, release: Some(incoming) })
                    &&& *final(self) == *old(self)
                    &&& final(owners).device == old(owners).device
                },
            },
    {
        match self.header.inner() {
            None => {
                add_ref_owner(&mut owners.device);
                self.header = ComHeader::new_alive(incoming);
                Adoption { adopted: true, release: None }
            },
            Some(inner) => {
                if inner.get() == incoming.get() {
                    self.header.add_ref();
                    Adoption { adopted: true, release: Some(incoming) }
                } else {
                    Adoption { adopted: false, release: Some(incoming) }
                }
            },
        }
    }

    /// Releases a reference on the resource; a resource that dies gives back its reference
    /// on the device.
    pub fn release(&mut self, owners: &mut Owners) -> (released: Released)
        requires
            old(self).header.wf(),
            old(owners).wf(),
        ensures
            final(self).header.wf(),
            final(owners).wf(),
            final(self).internal_flags == old(self).internal_flags,
            final(owners).device is Some <==> old(owners).device is Some,
            final(owners).parent is Some <==> old(owners).parent is Some,
            // The references on the device beside the resource's own are as before.
            refs_of(old(owners).device) > 0 ==> refs_of(final(owners).device) - held_by(
                final(self).header,
            ) == refs_of(old(owners).device) - held_by(old(self).header),
            final(self).header.refs() == refs_minus(Some(old(self).header)),
            released.count == refs_minus(Some(old(self).header)),
            old(self).header.refs() != 1 ==> *final(owners) == *old(owners)
                && released.inner@.len() == 0 && final(self).header.wrapped() == old(
                self,
            ).header.wrapped(),
            old(self).header.refs() == 1 ==> {
                &&& final(self).header.wrapped() is None
                &&& refs_of(final(owners).device) == refs_minus(old(owners).device)
                &&& wrapped_of(final(owners).device) == wrapped_minus(old(owners).device)
                &&& released.inner@.len() > 0
                &&& Some(released.inner@[0]) == old(self).header.wrapped()
                &&& refs_of(old(owners).device) != 1 ==> released.inner@.len() == 1
                    && final(owners).parent == old(owners).parent
                &&& refs_of(old(owners).device) == 1 ==> {
                    &&& refs_of(final(owners).parent) == refs_minus(old(owners).parent)
                    &&& wrapped_of(final(owners).parent) == wrapped_minus(old(owners).parent)
                    &&& released.inner@ == seq![old(self).header.wrapped()->0] + death_of(
                        old(owners).device,
                    ) + death_of(old(owners).parent)
                }
            },
    {
        let mut inner: Vec<NonZeroUsize> = Vec::new();
        match self.header.release() {
            ReleaseOutcome::OverRelease => Released { count: 0, inner },
            ReleaseOutcome::Remaining(n) => Released { count: n, inner },
            ReleaseOutcome::Died { inner: dead } => {
                inner.push(dead);
                let mut above = device8_release(owners);
                inner.append(&mut above.inner);
                proof {
                    if refs_of(old(owners).device) == 1 {
                        assert(inner@ =~= seq![old(self).header.wrapped()->0] + death_of(
                            old(owners).device,
                        ) + death_of(old(owners).parent));
                    }
                }
                Released { count: 0, inner }
            },
        }
    }
}

/// What a call that creates a resource gives the game.
#[derive(Clone, Copy, Debug, PartialEq, Eq, Structural)]
pub struct Created {
    pub hr: HResult,
    /// The new wrapper; the out-parameter is null without one.
    pub resource: Option<Resource8>,
}

/// Wraps a newly created, already referenced D3D9 resource, or forwards the failure. A
/// success without an object is refused.
pub fn wrap_created(hr: HResult, inner: usize, owners: &mut Owners, lockable: bool) -> (res:
    Created)
    requires
        old(owners).wf(),
        refs_of(old(owners).device) < u32::MAX,
    ensures
        final(owners).wf(),
        final(owners).parent == old(owners).parent,
        !d3d::succeeded(hr) ==> res == (Created { hr, resource: None }) && *final(owners) == *old(
            owners,
        ),
        d3d::succeeded(hr) && inner == 0 ==> res == (Created {
            hr: D3DERR_INVALIDCALL,
            resource: None,
        }) && *final(owners) == *old(owners),
        d3d::succeeded(hr) && inner != 0 ==> {
            &&& res.hr == hr
            &&& res.resource is Some
            &&& res.resource->0.header.wf()
            &&& res.resource->0.header.refs() == 1
            &&& wrapped_of(Some(res.resource->0.header)) is Some
            &&& res.resource->0.header.wrapped()->0@ == inner
            &&& res.resource->0.internal_flags == flags_of(lockable)
            &&& final(owners).device is Some <==> old(owners).device is Some
            &&& refs_of(final(owners).device) == refs_plus(old(owners).device)
            &&& wrapped_of(final(owners).device) == wrapped_of(old(owners).device)
        },
{
    if !is_ok(hr) {
        return Created { hr, resource: None };
    }
    match NonZeroUsize::new(inner) {
        Some(object) => {
            let resource = Resource8::new_raw(object, owners, lockable);
            Created { hr, resource: Some(resource) }
        },
        None => Created { hr: D3DERR_INVALIDCALL, resource: None },
    }
}

/// What is written to an out-parameter for an object.
#[derive(Clone, Copy, Debug, PartialEq, Eq, Structural)]
pub enum OutWrite {
    /// The pointer is null: nothing can be written.
    Untouched,
    /// Null is written.
    Cleared,
    /// The asked-for object is written.
    Object,
}

/// Answers `GetDevice` and `GetDirect3D`: hands out a reference on the owner of a live
/// receiver. The out-parameter is cleared first, so that a refusal leaves null in it.
pub fn get_owner(receiver: &ComHeader, owner: &mut Option<ComHeader>, out_valid: bool) -> (res: (
    HResult,
    OutWrite,
))
    requires
        receiver.wf(),
        header_wf(*old(owner)),
        refs_of(*old(owner)) < u32::MAX,
    ensures
        header_wf(*final(owner)),
        res == if !out_valid {
            (D3DERR_INVALIDCALL, OutWrite::Untouched)
        } else if receiver.wrapped() is None || (*old(owner)) is None {
            (D3DERR_INVALIDCALL, OutWrite::Cleared)
        } else {
            (D3D_OK, OutWrite::Object)
        },
        res.1 is Object ==> {
            &&& (*final(owner)) is Some
            &&& refs_of(*final(owner)) == refs_plus(*old(owner))
            &&& wrapped_of(*final(owner)) == wrapped_of(*old(owner))
        },
        !(res.1 is Object) ==> *final(owner) == *old(owner),
{
    if !out_valid {
        return (D3DERR_INVALIDCALL, OutWrite::Untouched);
    }
    if receiver.inner().is_none() || owner.is_none() {
        return (D3DERR_INVALIDCALL, OutWrite::Cleared);
    }
    add_ref_owner(owner);
    (D3D_OK, OutWrite::Object)
}

/// A method on a dead wrapper is refused where it reports a status, with the code for an
/// invalid call; a count is zero, and nothing stays nothing.
pub proof fn lemma_dead_answers(kind: MethodKind)
    ensures
        kind == MethodKind::Status <==> kind.dead_answer() != 0,
        kind == MethodKind::Status ==> kind.dead_answer() == 0x8876_086c - 0x1_0000_0000,
{
}

/// A live owner gains one reference and loses one, and dies with its last one, when its
/// hold on what it wraps is given up. A dead or missing one neither gains nor loses.
pub proof fn lemma_references(owner: Option<ComHeader>)
    requires
        header_wf(owner),
    ensures
        refs_of(owner) >= 1 ==> refs_plus(owner) == refs_of(owner) + 1,
        refs_of(owner) >= 1 ==> refs_minus(owner) == refs_of(owner) - 1,
        refs_of(owner) == 0 ==> refs_plus(owner) == 0 && refs_minus(owner) == 0,
        owner is None ==> refs_of(owner) == 0 && wrapped_of(owner) is None,
        refs_of(owner) > 0 <==> wrapped_of(owner) is Some,
        refs_of(owner) >= 2 ==> wrapped_minus(owner) == wrapped_of(owner) && death_of(owner).len()
            == 0,
        refs_of(owner) <= 1 ==> wrapped_minus(owner) is None,
        refs_of(owner) == 1 ==> death_of(owner) == seq![wrapped_of(owner)->0],
        refs_of(owner) == 0 ==> death_of(owner).len() == 0,
{
}

/// A lockable surface has bit 26 of its flags set, and another none; a live resource holds
/// its device once.
pub proof fn lemma_surface_flags(lockable: bool, header: ComHeader)
    ensures
        flags_of(lockable) == (if lockable {
            0x400_0000u32
        } else {
            0
        }),
        held_by(header) == 1 <==> header.wrapped() is Some,
        held_by(header) == 0 <==> header.wrapped() is None,
{
}

/// The flag that marks a surface as lockable.
pub proof fn lemma_lockable_flag()
    ensures
        D3D8_INTERNAL_LOCKABLE == 0x400_0000,
{
}

/// A header wraps something or is dead, and a dead one has no references.
pub proof fn lemma_dead_header(header: ComHeader)
    ensures
        header.wrapped() is None ==> header.refs() == 0,
{
}

} // verus!
