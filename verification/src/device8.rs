//! The methods of the Direct3D 8 wrapper objects.
//!
//! Each method that forwards to the wrapped object is decided in two parts: what is
//! refused before the call, and what the game is given after it.

use vstd::prelude::*;
use crate::com8::{
    unwrap8, unwrap8_arg, wrap_created, ComHeader, Created, OutWrite, Owners,
};
use crate::com8;
use crate::d3d::{
    is_ok, Format, HResult, PresentParameters, D3DERR_INVALIDCALL, D3D_OK, E_NOINTERFACE,
};
use crate::d3d;
use crate::d3d8::{
    caps_9_to_8, convert_present_params, copy_rows, needs_locked_copy, plan_copy_rects,
    plan_locked_copy, surface_desc_9_to_8, sync_present_params_back, CopyCall, CopyPlan, LockedCopy,
    Point, PresentParameters8, Rect, SurfaceDesc8, SurfaceDesc9, CAPS9_WORDS,
};
use crate::d3d8;
use crate::nonzero::NonZeroUsize;

verus! {

/// A call that is refused before the wrapped object is touched.
#[derive(Clone, Copy, Debug, PartialEq, Eq, Structural)]
pub struct Refusal {
    pub hr: HResult,
    pub out: OutWrite,
}

/// What a method that hands out an object does before the wrapped call: an
/// out-parameter that is null is refused, one that is not is cleared, and a dead receiver
/// is refused after that.
pub open spec fn claimed(out_valid: bool, receiver: ComHeader) -> Result<usize, Refusal> {
    if !out_valid {
        Err(Refusal { hr: D3DERR_INVALIDCALL, out: OutWrite::Untouched })
    } else {
        match receiver.wrapped() {
            Some(inner) => Ok(inner@),
            None => Err(Refusal { hr: D3DERR_INVALIDCALL, out: OutWrite::Cleared }),
        }
    }
}

/// Claims the out-parameter and the receiver of a method that hands out an object.
pub fn claim_out(out_valid: bool, receiver: &ComHeader) -> (res: Result<usize, Refusal>)
    ensures
        res == claimed(out_valid, *receiver),
{
    if !out_valid {
        return Err(Refusal { hr: D3DERR_INVALIDCALL, out: OutWrite::Untouched });
    }
    match receiver.inner() {
        Some(inner) => Ok(inner.get()),
        None => Err(Refusal { hr: D3DERR_INVALIDCALL, out: OutWrite::Cleared }),
    }
}

/// Claims the receiver of a method that fills a plain structure, which is left alone by a
/// refusal.
pub fn claim_opaque(out_valid: bool, receiver: &ComHeader) -> (res: Result<usize, HResult>)
    ensures
        res == match receiver.wrapped() {
            Some(inner) if out_valid => Ok(inner@),
            _ => Err(D3DERR_INVALIDCALL),
        },
{
    match receiver.inner() {
        Some(inner) if out_valid => Ok(inner.get()),
        _ => Err(D3DERR_INVALIDCALL),
    }
}

/// Answers `QueryInterface` on any wrapper: no interface is ever handed out.
pub fn wrap_query_interface(out_valid: bool) -> (res: Refusal)
    ensures
        res == if out_valid {
            Refusal { hr: E_NOINTERFACE, out: OutWrite::Cleared }
        } else {
            Refusal { hr: D3DERR_INVALIDCALL, out: OutWrite::Untouched }
        },
{
    if out_valid {
        Refusal { hr: E_NOINTERFACE, out: OutWrite::Cleared }
    } else {
        Refusal { hr: D3DERR_INVALIDCALL, out: OutWrite::Untouched }
    }
}

/// Answers `GetContainer`. Every surface that the games lock is the back buffer or a
/// render target, so none is said to be texture-owned; D3DX8 then goes by the internal
/// flags.
pub fn surface8_get_container(out_valid: bool) -> (res: Refusal)
    ensures
        res == (Refusal {
            hr: E_NOINTERFACE,
            out: if out_valid {
                OutWrite::Cleared
            } else {
                OutWrite::Untouched
            },
        }),
{
    let out = if out_valid {
        OutWrite::Cleared
    } else {
        OutWrite::Untouched
    };
    Refusal { hr: E_NOINTERFACE, out }
}

/// The methods that create a resource.
#[derive(Clone, Copy, Debug, PartialEq, Eq, Structural)]
pub enum Creation {
    Texture,
    /// A level of a texture, which is no directly lockable surface.
    TextureLevel,
    VertexBuffer,
    RenderTarget { lockable: i32 },
    /// A surface in system memory, which is always lockable.
    ImageSurface,
}

/// Whether what a method creates is directly lockable.
pub open spec fn creates_lockable(creation: Creation) -> bool {
    match creation {
        Creation::RenderTarget { lockable } => lockable != 0,
        Creation::ImageSurface => true,
        _ => false,
    }
}

impl Creation {
    /// Returns whether what the method creates is directly lockable.
    pub fn lockable(self) -> (res: bool)
        ensures
            res == creates_lockable(self),
    {
        match self {
            Creation::RenderTarget { lockable } => lockable != 0,
            Creation::ImageSurface => true,
            _ => false,
        }
    }

    /// Wraps what the wrapped object created, or forwards the failure.
    pub fn finish(self, hr: HResult, inner: usize, owners: &mut Owners) -> (res: Created)
        requires
            old(owners).wf(),
            com8::refs_of(old(owners).device) < u32::MAX,
        ensures
            final(owners).wf(),
            final(owners).parent == old(owners).parent,
            !d3d::succeeded(hr) ==> res == (Created { hr, resource: None }) && *final(owners)
                == *old(owners),
            d3d::succeeded(hr) && inner == 0 ==> res == (Created {
                hr: D3DERR_INVALIDCALL,
                resource: None,
            }) && *final(owners) == *old(owners),
            d3d::succeeded(hr) && inner != 0 ==> {
                &&& res.hr == hr
                &&& res.resource is Some
                &&& res.resource->0.header.wf()
                &&& res.resource->0.header.refs() == 1
                &&& res.resource->0.header.wrapped() is Some
                &&& res.resource->0.header.wrapped()->0@ == inner
                &&& res.resource->0.internal_flags == com8::flags_of(creates_lockable(self))
                &&& final(owners).device is Some <==> old(owners).device is Some
                &&& com8::refs_of(final(owners).device) == com8::refs_plus(old(owners).device)
                &&& com8::wrapped_of(final(owners).device) == com8::wrapped_of(old(owners).device)
            },
    {
        wrap_created(hr, inner, owners, self.lockable())
    }
}

/// Answers `IDirect3DSurface8::GetDesc` after the wrapped surface was asked.
pub fn surface8_get_desc(hr: HResult, d9: &SurfaceDesc9) -> (res: (HResult, Option<SurfaceDesc8>))
    ensures
        res.0 == if d3d::succeeded(hr) {
            D3D_OK
        } else {
            hr
        },
        res.1 is Some <==> d3d::succeeded(hr),
        res.1 is Some ==> res.1->0 == d3d8::desc_8(*d9),
{
    if is_ok(hr) {
        (D3D_OK, Some(surface_desc_9_to_8(d9)))
    } else {
        (hr, None)
    }
}

/// Answers `IDirect3DTexture8::GetLevelDesc` after the wrapped texture was asked.
pub fn texture8_get_level_desc(hr: HResult, d9: &SurfaceDesc9) -> (res: (
    HResult,
    Option<SurfaceDesc8>,
))
    ensures
        res.0 == hr,
        res.1 is Some <==> d3d::succeeded(hr),
        res.1 is Some ==> res.1->0 == d3d8::desc_8(*d9),
{
    if is_ok(hr) {
        (hr, Some(surface_desc_9_to_8(d9)))
    } else {
        (hr, None)
    }
}

/// Answers `IDirect3DDevice8::GetDeviceCaps` after the wrapped device was asked.
pub fn device8_get_device_caps(hr: HResult, caps9: &Vec<u32>) -> (res: (HResult, Option<Vec<u32>>))
    requires
        caps9@.len() == CAPS9_WORDS,
    ensures
        res.0 == hr,
        res.1 is Some <==> d3d::succeeded(hr),
        res.1 is Some ==> res.1->0@ == caps9@.take(d3d8::CAPS8_WORDS as int),
{
    if is_ok(hr) {
        (hr, Some(caps_9_to_8(caps9)))
    } else {
        (hr, None)
    }
}

/// Begins `IDirect3DDevice8::Reset`: the wrapped device, and the parameters it is reset
/// with.
pub fn device8_reset(device: &ComHeader, pp8: Option<&PresentParameters8>) -> (res: Result<
    (usize, PresentParameters),
    HResult,
>)
    ensures
        res == match pp8 {
            Some(pp8) => match device.wrapped() {
                Some(inner) => Ok((inner@, d3d8::params_9(*pp8))),
                None => Err(D3DERR_INVALIDCALL),
            },
            None => Err(D3DERR_INVALIDCALL),
        },
{
    let pp8 = match pp8 {
        Some(pp8) => pp8,
        None => {
            return Err(D3DERR_INVALIDCALL);
        },
    };
    match device.inner() {
        Some(inner) => Ok((inner.get(), convert_present_params(pp8))),
        None => Err(D3DERR_INVALIDCALL),
    }
}

/// Finishes a reset: on success the game's parameters are brought up to date.
pub fn finish_reset(hr: HResult, pp8: &mut PresentParameters8, pp9: &PresentParameters) -> (res:
    HResult)
    ensures
        res == hr,
        *final(pp8) == if d3d::succeeded(hr) {
            PresentParameters8 {
                back_buffer_width: pp9.back_buffer_width,
                back_buffer_height: pp9.back_buffer_height,
                back_buffer_format: pp9.back_buffer_format,
                ..*old(pp8)
            }
        } else {
            *old(pp8)
        },
{
    if is_ok(hr) {
        sync_present_params_back(pp8, pp9);
    }
    hr
}

/// Begins `IDirect3D8::CreateDevice`: the wrapped object, and the parameters the device
/// is created with.
pub fn d3d8_create_device(
    out_valid: bool,
    parent: &ComHeader,
    pp8: Option<&PresentParameters8>,
) -> (res: Result<(usize, PresentParameters), Refusal>)
    ensures
        res == if !out_valid {
            Err(Refusal { hr: D3DERR_INVALIDCALL, out: OutWrite::Untouched })
        } else if pp8 is None || parent.wrapped() is None {
            Err(Refusal { hr: D3DERR_INVALIDCALL, out: OutWrite::Cleared })
        } else {
            Ok((parent.wrapped()->0@, d3d8::params_9(*pp8->0)))
        },
{
    if !out_valid {
        return Err(Refusal { hr: D3DERR_INVALIDCALL, out: OutWrite::Untouched });
    }
    let pp8 = match pp8 {
        Some(pp8) => pp8,
        None => {
            return Err(Refusal { hr: D3DERR_INVALIDCALL, out: OutWrite::Cleared });
        },
    };
    match parent.inner() {
        Some(inner) => Ok((inner.get(), convert_present_params(pp8))),
        None => Err(Refusal { hr: D3DERR_INVALIDCALL, out: OutWrite::Cleared }),
    }
}

/// Answers `Direct3DCreate8` after the hooked D3D9 object was created: a wrapper with one
/// reference, or null.
pub fn hook_direct3dcreate8(created: Option<NonZeroUsize>) -> (res: Option<ComHeader>)
    ensures
        res is Some <==> created is Some,
        res is Some ==> {
            &&& res->0.wf()
            &&& res->0.refs() == 1
            &&& res->0.wrapped() == created
        },
{
    match created {
        Some(inner) => Some(ComHeader::new_alive(inner)),
        None => None,
    }
}

/// The surfaces of a call that takes two of them, or nothing if one is null or dead.
pub open spec fn both_live(
    src: Option<&ComHeader>,
    dst: Option<&ComHeader>,
) -> Option<(usize, usize)> {
    match (src, dst) {
        (Some(s), Some(d)) => match (s.wrapped(), d.wrapped()) {
            (Some(s9), Some(d9)) => Some((s9@, d9@)),
            _ => None,
        },
        _ => None,
    }
}

/// Unwraps the two surfaces of a `CopyRects` call; a null or dead one is refused.
pub fn copy_operands(src: Option<&ComHeader>, dst: Option<&ComHeader>) -> (res: Result<
    (usize, usize),
    HResult,
>)
    ensures
        res == match both_live(src, dst) {
            Some(pair) => Ok(pair),
            None => Err(D3DERR_INVALIDCALL),
        },
{
    match (unwrap8(src), unwrap8(dst)) {
        (Some(s), Some(d)) => Ok((s.get(), d.get())),
        _ => Err(D3DERR_INVALIDCALL),
    }
}

/// Unwraps the receiver and the two textures of an `UpdateTexture` call. Null textures
/// are passed on; a dead one is refused.
pub fn device8_update_texture(
    device: &ComHeader,
    src: Option<&ComHeader>,
    dst: Option<&ComHeader>,
) -> (res: Result<(usize, usize, usize), HResult>)
    ensures
        res == if device.wrapped() is None || (src is Some && src->0.wrapped() is None) || (
        dst is Some && dst->0.wrapped() is None) {
            Err(D3DERR_INVALIDCALL)
        } else {
            Ok(
                (
                    device.wrapped()->0@,
                    if src is Some {
                        src->0.wrapped()->0@
                    } else {
                        0
                    },
                    if dst is Some {
                        dst->0.wrapped()->0@
                    } else {
                        0
                    },
                ),
            )
        },
{
    let receiver: usize = match device.inner() {
        Some(inner) => inner.get(),
        None => {
            return Err(D3DERR_INVALIDCALL);
        },
    };
    match (unwrap8_arg(src), unwrap8_arg(dst)) {
        (Ok(s), Ok(d)) => Ok((receiver, s, d)),
        _ => Err(D3DERR_INVALIDCALL),
    }
}

/// The arrays of a `CopyRects` call: the first rectangle and the first point, where there
/// are any.
#[derive(Clone, Copy, Debug, PartialEq, Eq, Structural)]
pub struct CopyRequest {
    pub rect: Option<Rect>,
    pub rect_count: u32,
    pub point: Option<Point>,
}

/// What follows the device call of a copy.
#[derive(Clone, Copy, Debug, PartialEq, Eq, Structural)]
pub enum CopyNext {
    Done(HResult),
    /// Lock both surfaces and copy rows.
    Lock(LockedCopy),
}

/// What follows: the call's own success, or the lock-and-copy fallback.
pub open spec fn copy_next(
    plan: CopyPlan,
    format: Format,
    src: usize,
    dst: usize,
    call_result: Option<HResult>,
) -> CopyNext {
    if call_result is Some && d3d::succeeded(call_result->0) {
        CopyNext::Done(call_result->0)
    } else {
        match d3d8::pixel_bytes(format) {
            Some(bytes_pp) if src != dst => CopyNext::Lock(
                LockedCopy {
                    width_bytes: ((plan.rect.right - plan.rect.left) * bytes_pp) as u32,
                    rows: (plan.rect.bottom - plan.rect.top) as u32,
                    dst_rect: d3d8::moved_to(plan.rect, plan.point),
                },
            ),
            _ => CopyNext::Done(D3DERR_INVALIDCALL),
        }
    }
}

/// Whether the bytes of a row of `plan` fit in 32 bits.
pub open spec fn row_fits(plan: CopyPlan, format: Format) -> bool {
    d3d8::pixel_bytes(format) is Some ==> (plan.rect.right - plan.rect.left) * d3d8::pixel_bytes(
        format,
    )->0 <= u32::MAX
}

/// Decides what follows the device call of a copy, `None` where no call fits.
pub fn copy_one_rect(
    plan: &CopyPlan,
    format: Format,
    src: usize,
    dst: usize,
    call_result: Option<HResult>,
) -> (res: CopyNext)
    requires
        d3d8::movable(plan.rect, plan.point),
        row_fits(*plan, format),
    ensures
        res == copy_next(*plan, format, src, dst, call_result),
{
    if let Some(hr) = call_result {
        if !needs_locked_copy(call_result) {
            return CopyNext::Done(hr);
        }
    }
    match plan_locked_copy(format, src, dst, &plan.rect, &plan.point) {
        Ok(copy) => CopyNext::Lock(copy),
        Err(hr) => CopyNext::Done(hr),
    }
}

/// A locked surface: its bytes from the first row of the locked rectangle on, and the
/// distance between two rows.
#[derive(Debug)]
pub struct LockedBits {
    pub bits: Vec<u8>,
    pub pitch: usize,
}

/// Whether a lock gives access to every row of `copy`.
pub open spec fn covers(lock: LockedBits, copy: LockedCopy) -> bool {
    &&& copy.width_bytes <= lock.pitch
    &&& copy.rows > 0 ==> (copy.rows - 1) * lock.pitch + copy.width_bytes <= lock.bits@.len()
}

/// The result of the fallback: the first lock that failed, or the destination's bytes
/// with the rows taken over.
pub open spec fn locked_result(
    copy: LockedCopy,
    src: Result<LockedBits, HResult>,
    dst: Result<LockedBits, HResult>,
) -> Result<Seq<u8>, HResult> {
    match (src, dst) {
        (Err(hr), _) => Err(hr),
        (Ok(_), Err(hr)) => Err(hr),
        (Ok(s), Ok(d)) => Ok(
            d3d8::rows_copied(
                s.bits@,
                d.bits@,
                s.pitch as int,
                d.pitch as int,
                copy.width_bytes as int,
                copy.rows as int,
            ),
        ),
    }
}

/// Copies the rows between two surfaces that were to be locked. The destination is only
/// locked after the source.
pub fn copy_locked(
    copy: &LockedCopy,
    src: Result<LockedBits, HResult>,
    dst: Result<LockedBits, HResult>,
) -> (res: Result<Vec<u8>, HResult>)
    requires
        copy.width_bytes > 0,
        src is Ok ==> covers(src->Ok_0, *copy),
        dst is Ok ==> covers(dst->Ok_0, *copy),
    ensures
        match locked_result(*copy, src, dst) {
            Ok(bits) => res is Ok && res->Ok_0@ == bits,
            Err(hr) => res == Err::<Vec<u8>, HResult>(hr),
        },
{
    let s = match src {
        Ok(s) => s,
        Err(hr) => {
            return Err(hr);
        },
    };
    let d = match dst {
        Ok(d) => d,
        Err(hr) => {
            return Err(hr);
        },
    };
    let mut bits = d.bits;
    copy_rows(
        s.bits.as_slice(),
        s.pitch,
        &mut bits,
        d.pitch,
        copy.width_bytes as usize,
        copy.rows as usize,
    );
    Ok(bits)
}

/// What the wrapped objects answer during a `CopyRects` call, as far as they are asked:
/// the descriptions of the surfaces, the device call, and the two locks.
#[derive(Debug)]
pub struct CopyAnswers {
    pub src_desc: Option<SurfaceDesc9>,
    pub dst_desc: Option<SurfaceDesc9>,
    pub call: HResult,
    pub src_lock: Result<LockedBits, HResult>,
    pub dst_lock: Result<LockedBits, HResult>,
}

/// How a `CopyRects` call went.
#[derive(Debug)]
pub struct CopyOutcome {
    pub hr: HResult,
    /// The device call that was made.
    pub call: Option<CopyCall>,
    /// The destination's bytes after a locked copy.
    pub written: Option<Vec<u8>>,
}

/// The copy that a request means, or nothing where it is refused.
pub open spec fn planned_copy(
    device: ComHeader,
    request: CopyRequest,
    src_desc: Option<SurfaceDesc9>,
    dst_desc: Option<SurfaceDesc9>,
) -> Option<CopyPlan> {
    if src_desc is None || dst_desc is None || src_desc->0.format != dst_desc->0.format
        || device.wrapped() is None || request.rect_count > 1 {
        None
    } else {
        let asked = if request.rect_count == 0 {
            None
        } else {
            request.rect
        };
        let (r, pt) = d3d8::requested_copy(src_desc->0, asked, request.point);
        if d3d8::copy_fits(r, pt, src_desc->0, dst_desc->0) {
            Some(
                CopyPlan {
                    rect: r,
                    point: pt,
                    call: d3d8::copy_call_of(r, pt, src_desc->0, dst_desc->0),
                },
            )
        } else {
            None
        }
    }
}

/// The result of the device call that a plan makes.
pub open spec fn call_answer(plan: CopyPlan, call: HResult) -> Option<HResult> {
    if plan.call is Some {
        Some(call)
    } else {
        None
    }
}

/// What a `CopyRects` call comes down to once the device call is made, or nothing where
/// it is refused.
pub open spec fn copy_after_call(
    device: ComHeader,
    src: Option<&ComHeader>,
    dst: Option<&ComHeader>,
    request: CopyRequest,
    answers: CopyAnswers,
) -> Option<(CopyPlan, CopyNext)> {
    match (
        both_live(src, dst),
        planned_copy(device, request, answers.src_desc, answers.dst_desc),
    ) {
        (Some((s9, d9)), Some(plan)) => Some(
            (
                plan,
                copy_next(
                    plan,
                    answers.src_desc->0.format,
                    s9,
                    d9,
                    call_answer(plan, answers.call),
                ),
            ),
        ),
        _ => None,
    }
}

/// Copies a rectangle between two surfaces: by the device call that fits their pools, and
/// by locking both where none fits or the call fails.
pub fn device8_copy_rects(
    device: &ComHeader,
    src: Option<&ComHeader>,
    dst: Option<&ComHeader>,
    request: CopyRequest,
    answers: CopyAnswers,
) -> (res: CopyOutcome)
    requires
        answers.dst_desc is Some ==> answers.dst_desc->0.width <= i32::MAX
            && answers.dst_desc->0.height <= i32::MAX,
        answers.src_desc is Some ==> answers.src_desc->0.width * 4 <= u32::MAX,
        match copy_after_call(*device, src, dst, request, answers) {
            Some((_, CopyNext::Lock(copy))) => {
                &&& answers.src_lock is Ok ==> covers(answers.src_lock->Ok_0, copy)
                &&& answers.dst_lock is Ok ==> covers(answers.dst_lock->Ok_0, copy)
            },
            _ => true,
        },
    ensures
        match copy_after_call(*device, src, dst, request, answers) {
            None => res.hr == D3DERR_INVALIDCALL && res.call is None && res.written is None,
            Some((plan, CopyNext::Done(hr))) => res.hr == hr && res.call == plan.call
                && res.written is None,
            Some((plan, CopyNext::Lock(copy))) => res.call == plan.call && match locked_result(
                copy,
                answers.src_lock,
                answers.dst_lock,
            ) {
                Ok(bits) => res.hr == D3D_OK && res.written is Some && res.written->0@ == bits,
                Err(hr) => res.hr == hr && res.written is None,
            },
        },
{
    let (s9, d9) = match copy_operands(src, dst) {
        Ok(pair) => pair,
        Err(hr) => {
            return CopyOutcome { hr, call: None, written: None };
        },
    };
    let plan = match plan_copy_rects(
        device,
        answers.src_desc,
        answers.dst_desc,
        request.rect,
        request.rect_count,
        request.point,
    ) {
        Ok(plan) => plan,
        Err(hr) => {
            return CopyOutcome { hr, call: None, written: None };
        },
    };
    let format: Format = match answers.src_desc {
        Some(desc) => desc.format,
        None => 0,
    };
    let call_result = match plan.call {
        Some(_) => Some(answers.call),
        None => None,
    };
    proof {
        if let Some(bytes_pp) = d3d8::pixel_bytes(format) {
            let w = plan.rect.right - plan.rect.left;
            assert(w * bytes_pp <= answers.src_desc->0.width * 4) by (nonlinear_arith)
                requires
                    0 <= w <= answers.src_desc->0.width,
                    0 <= bytes_pp <= 4,
            ;
            assert(w * bytes_pp > 0) by (nonlinear_arith)
                requires
                    0 < w,
                    0 < bytes_pp,
            ;
        }
    }
    match copy_one_rect(&plan, format, s9, d9, call_result) {
        CopyNext::Done(hr) => CopyOutcome { hr, call: plan.call, written: None },
        CopyNext::Lock(copy) => match copy_locked(&copy, answers.src_lock, answers.dst_lock) {
            Ok(bits) => CopyOutcome { hr: D3D_OK, call: plan.call, written: Some(bits) },
            Err(hr) => CopyOutcome { hr, call: plan.call, written: None },
        },
    }
}

/// A method that hands out an object works on a live wrapper with somewhere to put it. Any
/// other call is invalid, and clears what it could have written to.
pub proof fn lemma_claimed(out_valid: bool, receiver: ComHeader)
    ensures
        match claimed(out_valid, receiver) {
            Ok(inner) => out_valid && receiver.wrapped() is Some && receiver.wrapped()->0@ == inner,
            Err(refusal) => {
                &&& refusal.hr == 0x8876_086c - 0x1_0000_0000
                &&& refusal.out == OutWrite::Untouched <==> !out_valid
                &&& refusal.out == OutWrite::Cleared <==> out_valid
                &&& out_valid ==> receiver.wrapped() is None
            },
        },
{
}

/// An image surface is lockable, a render target if that was asked for, and nothing else.
pub proof fn lemma_lockable(creation: Creation, lockable: i32)
    ensures
        creates_lockable(Creation::ImageSurface),
        creates_lockable(Creation::RenderTarget { lockable }) <==> lockable != 0,
        creation is Texture || creation is TextureLevel || creation is VertexBuffer
            ==> !creates_lockable(creation),
{
}

/// A copy needs two live surfaces, and works on what each of them wraps.
pub proof fn lemma_both_live(src: Option<&ComHeader>, dst: Option<&ComHeader>)
    ensures
        match both_live(src, dst) {
            Some(pair) => {
                &&& src is Some && src->0.wrapped() is Some && src->0.wrapped()->0@ == pair.0
                &&& dst is Some && dst->0.wrapped() is Some && dst->0.wrapped()->0@ == pair.1
            },
            None => src is None || dst is None || src->0.wrapped() is None || dst->0.wrapped()
                is None,
        },
{
}

/// A device call that succeeds is the answer. Otherwise plain pixels of two different
/// surfaces are copied under locks, as many bytes in a row and as many rows as the
/// rectangle has; and what cannot be copied so is an invalid call.
pub proof fn lemma_copy_next(
    plan: CopyPlan,
    format: Format,
    src: usize,
    dst: usize,
    call_result: Option<HResult>,
)
    requires
        d3d8::movable(plan.rect, plan.point),
        row_fits(plan, format),
    ensures
        ({
            let done = call_result is Some && call_result->0 >= 0;
            let plain = d3d8::pixel_bytes(format);
            match copy_next(plan, format, src, dst, call_result) {
                CopyNext::Done(hr) => {
                    &&& done ==> hr == call_result->0
                    &&& !done ==> hr == 0x8876_086c - 0x1_0000_0000 && (plain is None || src == dst)
                },
                CopyNext::Lock(copy) => {
                    &&& !done && plain is Some && src != dst
                    &&& copy.width_bytes == (plan.rect.right - plan.rect.left) * plain->0
                    &&& copy.rows == plan.rect.bottom - plan.rect.top
                    &&& copy.dst_rect.left == plan.point.x && copy.dst_rect.top == plan.point.y
                    &&& copy.dst_rect.right - copy.dst_rect.left == plan.rect.right
                        - plan.rect.left
                    &&& copy.dst_rect.bottom - copy.dst_rect.top == plan.rect.bottom
                        - plan.rect.top
                },
            }
        }),
{
    if let Some(n) = d3d8::pixel_bytes(format) {
        let w = plan.rect.right - plan.rect.left;
        assert(0 <= w * n) by (nonlinear_arith)
            requires
                0 <= w,
                0 <= n,
        ;
    }
}

/// The first lock that fails is the answer; under both locks the rows are copied.
pub proof fn lemma_locked_result(
    copy: LockedCopy,
    src: Result<LockedBits, HResult>,
    dst: Result<LockedBits, HResult>,
)
    ensures
        src is Err ==> locked_result(copy, src, dst) == Err::<Seq<u8>, HResult>(src->Err_0),
        src is Ok && dst is Err ==> locked_result(copy, src, dst) == Err::<Seq<u8>, HResult>(
            dst->Err_0,
        ),
        src is Ok && dst is Ok ==> locked_result(copy, src, dst) == Ok::<Seq<u8>, HResult>(
            d3d8::rows_copied(
                src->Ok_0.bits@,
                dst->Ok_0.bits@,
                src->Ok_0.pitch as int,
                dst->Ok_0.pitch as int,
                copy.width_bytes as int,
                copy.rows as int,
            ),
        ),
{
}

/// A copy is planned for at most one rectangle, between surfaces of one format on a live
/// device, where it fits both.
pub proof fn lemma_planned_copy(
    device: ComHeader,
    request: CopyRequest,
    src_desc: Option<SurfaceDesc9>,
    dst_desc: Option<SurfaceDesc9>,
)
    ensures
        ({
            let asked = if request.rect_count == 0 {
                None
            } else {
                request.rect
            };
            match planned_copy(device, request, src_desc, dst_desc) {
                Some(plan) => {
                    &&& src_desc is Some && dst_desc is Some
                    &&& src_desc->0.format == dst_desc->0.format
                    &&& device.wrapped() is Some
                    &&& request.rect_count <= 1
                    &&& (plan.rect, plan.point) == d3d8::requested_copy(
                        src_desc->0,
                        asked,
                        request.point,
                    )
                    &&& d3d8::copy_fits(plan.rect, plan.point, src_desc->0, dst_desc->0)
                    &&& plan.call == d3d8::copy_call_of(
                        plan.rect,
                        plan.point,
                        src_desc->0,
                        dst_desc->0,
                    )
                },
                None => {
                    ||| src_desc is None || dst_desc is None
                    ||| src_desc->0.format != dst_desc->0.format
                    ||| device.wrapped() is None
                    ||| request.rect_count > 1
                    ||| !d3d8::copy_fits(
                        d3d8::requested_copy(src_desc->0, asked, request.point).0,
                        d3d8::requested_copy(src_desc->0, asked, request.point).1,
                        src_desc->0,
                        dst_desc->0,
                    )
                },
            }
        }),
{
}

/// A copy is made between two live surfaces with a plan, and is refused otherwise. What
/// follows goes by the result of the device call, where the plan makes one.
pub proof fn lemma_copy_after_call(
    device: ComHeader,
    src: Option<&ComHeader>,
    dst: Option<&ComHeader>,
    request: CopyRequest,
    answers: CopyAnswers,
)
    ensures
        ({
            let live = both_live(src, dst);
            let plan = planned_copy(device, request, answers.src_desc, answers.dst_desc);
            let after = copy_after_call(device, src, dst, request, answers);
            &&& after is Some <==> live is Some && plan is Some
            &&& after is Some ==> (after->0).0 == plan->0
            &&& after is Some && plan->0.call is Some ==> (after->0).1 == copy_next(
                plan->0,
                answers.src_desc->0.format,
                (live->0).0,
                (live->0).1,
                Some(answers.call),
            )
            &&& after is Some && plan->0.call is None ==> (after->0).1 == copy_next(
                plan->0,
                answers.src_desc->0.format,
                (live->0).0,
                (live->0).1,
                None,
            )
        }),
{
}

} // verus!
