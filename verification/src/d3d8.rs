//! D3D8 to D3D9Ex translation.
//!
//! The subset of the D3D8 COM surface that the games use is implemented over D3D9Ex:
//! present parameters, surface descriptions, capabilities, render and texture stage
//! states, and rectangle copies are translated here.

use vstd::prelude::*;
use crate::bytes;
use crate::bytes::{cast_signed, cast_unsigned};
use crate::com8::{
    wrap_created, Adoption, ComHeader, Created, Owners, Resource8,
};
use crate::com8;
use crate::d3d;
use crate::d3d::{
    is_ok, Format, HResult, PresentParameters, D3DERR_INVALIDCALL, D3DFMT_A1R5G5B5, D3DFMT_A4L4,
    D3DFMT_A4R4G4B4, D3DFMT_A8, D3DFMT_A8L8, D3DFMT_A8P8, D3DFMT_A8R8G8B8, D3DFMT_D15S1,
    D3DFMT_D16, D3DFMT_D16_LOCKABLE, D3DFMT_D24S8, D3DFMT_D24X8, D3DFMT_D32, D3DFMT_L8, D3DFMT_P8,
    D3DFMT_R5G6B5, D3DFMT_R8G8B8, D3DFMT_X1R5G5B5, D3DFMT_X4R4G4B4, D3DFMT_X8R8G8B8,
    D3DMULTISAMPLE_NONE, D3DPOOL_DEFAULT, D3DPOOL_SYSTEMMEM, D3DSWAPEFFECT_COPY,
    D3DSWAPEFFECT_DISCARD, D3DSWAPEFFECT_FLIP,
};
use crate::d3d9::PresentPolicy;
use crate::nonzero::NonZeroUsize;
use crate::patches::{PatchSite, MAX_PATCH_LEN, OPCODE_CALL, REL32_LEN};
use crate::patches;
use crate::vtable::FnSlot;

verus! {

/// D3D8's own "copy, synchronized to vblank".
pub const D3DSWAPEFFECT_COPY_VSYNC8: u32 = 4;

/// What a D3D8 device is created or reset with.
#[derive(Clone, Copy, Debug, PartialEq, Eq, Structural)]
pub struct PresentParameters8 {
    pub back_buffer_width: u32,
    pub back_buffer_height: u32,
    pub back_buffer_format: Format,
    pub back_buffer_count: u32,
    pub multi_sample_type: i32,
    pub swap_effect: u32,
    pub device_window: usize,
    pub windowed: i32,
    pub enable_auto_depth_stencil: i32,
    pub auto_depth_stencil_format: Format,
    pub flags: u32,
    pub refresh_rate: u32,
    pub presentation_interval: u32,
}

/// The swap effect for D3D9. The games read the back buffer after `Present`, which only
/// `COPY` keeps defined under D3D9Ex; with multisampling D3D9 takes nothing but
/// `DISCARD` in place of `FLIP`.
pub open spec fn swap_effect_9(pp8: PresentParameters8) -> i32 {
    if pp8.swap_effect == D3DSWAPEFFECT_COPY_VSYNC8 {
        D3DSWAPEFFECT_COPY
    } else if pp8.swap_effect == 2 {
        if pp8.multi_sample_type == D3DMULTISAMPLE_NONE {
            D3DSWAPEFFECT_COPY
        } else {
            D3DSWAPEFFECT_DISCARD
        }
    } else {
        bytes::as_signed(pp8.swap_effect)
    }
}

/// The D3D9 parameters for D3D8 ones.
pub open spec fn params_9(pp8: PresentParameters8) -> PresentParameters {
    PresentParameters {
        back_buffer_width: pp8.back_buffer_width,
        back_buffer_height: pp8.back_buffer_height,
        back_buffer_format: pp8.back_buffer_format,
        back_buffer_count: pp8.back_buffer_count,
        multi_sample_type: pp8.multi_sample_type,
        multi_sample_quality: 0,
        swap_effect: swap_effect_9(pp8),
        device_window: pp8.device_window,
        windowed: pp8.windowed,
        enable_auto_depth_stencil: pp8.enable_auto_depth_stencil,
        auto_depth_stencil_format: pp8.auto_depth_stencil_format,
        flags: pp8.flags,
        refresh_rate: pp8.refresh_rate,
        presentation_interval: pp8.presentation_interval,
    }
}

/// Translates D3D8 present parameters to D3D9.
pub fn convert_present_params(pp8: &PresentParameters8) -> (pp9: PresentParameters)
    ensures
        pp9 == params_9(*pp8),
        pp9.windowed == pp8.windowed,
        pp9.back_buffer_width == pp8.back_buffer_width,
        pp9.back_buffer_height == pp8.back_buffer_height,
        pp9.back_buffer_format == pp8.back_buffer_format,
        pp9.back_buffer_count == pp8.back_buffer_count,
        pp9.multi_sample_type == pp8.multi_sample_type,
        pp9.device_window == pp8.device_window,
        pp9.enable_auto_depth_stencil == pp8.enable_auto_depth_stencil,
        pp9.auto_depth_stencil_format == pp8.auto_depth_stencil_format,
        pp9.flags == pp8.flags,
        pp9.refresh_rate == pp8.refresh_rate,
        pp9.presentation_interval == pp8.presentation_interval,
{
    let swap_effect: i32 = if pp8.swap_effect == D3DSWAPEFFECT_COPY_VSYNC8 {
        D3DSWAPEFFECT_COPY
    } else if pp8.swap_effect == cast_unsigned(D3DSWAPEFFECT_FLIP) {
        if pp8.multi_sample_type == D3DMULTISAMPLE_NONE {
            D3DSWAPEFFECT_COPY
        } else {
            D3DSWAPEFFECT_DISCARD
        }
    } else {
        cast_signed(pp8.swap_effect)
    };
    PresentParameters {
        back_buffer_width: pp8.back_buffer_width,
        back_buffer_height: pp8.back_buffer_height,
        back_buffer_format: pp8.back_buffer_format,
        back_buffer_count: pp8.back_buffer_count,
        multi_sample_type: pp8.multi_sample_type,
        multi_sample_quality: 0,
        swap_effect,
        device_window: pp8.device_window,
        windowed: pp8.windowed,
        enable_auto_depth_stencil: pp8.enable_auto_depth_stencil,
        auto_depth_stencil_format: pp8.auto_depth_stencil_format,
        flags: pp8.flags,
        refresh_rate: pp8.refresh_rate,
        presentation_interval: pp8.presentation_interval,
    }
}

/// Copies what the game must see of the parameters the device ended up with, the back
/// buffer's size and format, back into its own structure.
pub fn sync_present_params_back(pp8: &mut PresentParameters8, pp9: &PresentParameters)
    ensures
        *final(pp8) == (PresentParameters8 {
            back_buffer_width: pp9.back_buffer_width,
            back_buffer_height: pp9.back_buffer_height,
            back_buffer_format: pp9.back_buffer_format,
            ..*old(pp8)
        }),
{
    pp8.back_buffer_width = pp9.back_buffer_width;
    pp8.back_buffer_height = pp9.back_buffer_height;
    pp8.back_buffer_format = pp9.back_buffer_format;
}

/// Syncing back what a request was converted to changes nothing.
pub proof fn lemma_sync_undoes_nothing(pp8: PresentParameters8)
    ensures
        (PresentParameters8 {
            back_buffer_width: params_9(pp8).back_buffer_width,
            back_buffer_height: params_9(pp8).back_buffer_height,
            back_buffer_format: params_9(pp8).back_buffer_format,
            ..pp8
        }) == pp8,
        params_9(pp8).swap_effect != D3DSWAPEFFECT_FLIP,
{
}

/// The number of dwords of `D3DCAPS9`.
pub const CAPS9_WORDS: usize = 76;

/// The number of dwords of `D3DCAPS8`: the fields that D3D9 added all stand behind the
/// ones it inherited. The last of them is `MaxPixelShaderValue`, which D3D9 renamed to
/// `PixelShader1xMaxValue`.
pub const CAPS8_WORDS: usize = 53;

pub const CAPS_ADAPTER_ORDINAL: usize = 1;

pub const CAPS_PRESENTATION_INTERVALS: usize = 5;

pub const CAPS_MAX_TEXTURE_WIDTH: usize = 22;

pub const CAPS_TEXTURE_OP_CAPS: usize = 36;

pub const CAPS_MAX_SIMULTANEOUS_TEXTURES: usize = 38;

pub const CAPS_MAX_PIXEL_SHADER_VALUE: usize = 52;

/// Translates device capabilities; floating-point fields are carried as their bits.
pub fn caps_9_to_8(caps: &Vec<u32>) -> (res: Vec<u32>)
    requires
        caps@.len() == CAPS9_WORDS,
    ensures
        res@ == caps@.take(CAPS8_WORDS as int),
        res@.len() == 53,
        forall|i: int| 0 <= i < 53 ==> #[trigger] res@[i] == caps@[i],
{
    let mut res: Vec<u32> = Vec::new();
    let mut i: usize = 0;
    while i < CAPS8_WORDS
        invariant
            i <= CAPS8_WORDS,
            caps@.len() == CAPS9_WORDS,
            res@ == caps@.take(i as int),
        decreases CAPS8_WORDS - i,
    {
        res.push(caps[i]);
        i += 1;
        assert(res@ =~= caps@.take(i as int));
    }
    res
}

/// The bytes of a pixel in a format whose rows are plain arrays of pixels.
pub open spec fn pixel_bytes(f: Format) -> Option<u32> {
    if f == D3DFMT_A8R8G8B8 || f == D3DFMT_X8R8G8B8 || f == D3DFMT_D24S8 || f == D3DFMT_D24X8 || f
        == D3DFMT_D32 {
        Some(4u32)
    } else if f == D3DFMT_R8G8B8 {
        Some(3u32)
    } else if f == D3DFMT_R5G6B5 || f == D3DFMT_X1R5G5B5 || f == D3DFMT_A1R5G5B5 || f
        == D3DFMT_A4R4G4B4 || f == D3DFMT_X4R4G4B4 || f == D3DFMT_A8L8 || f == D3DFMT_A8P8 || f
        == D3DFMT_D16 || f == D3DFMT_D16_LOCKABLE || f == D3DFMT_D15S1 {
        Some(2u32)
    } else if f == D3DFMT_A8 || f == D3DFMT_P8 || f == D3DFMT_L8 || f == D3DFMT_A4L4 {
        Some(1u32)
    } else {
        None
    }
}

/// Returns the number of bytes per pixel, or `None` when a row isn't exactly that many
/// contiguous bytes per pixel.
pub fn bytes_per_pixel(f: Format) -> (res: Option<u32>)
    ensures
        res == pixel_bytes(f),
        res is Some ==> 1 <= res->0 <= 4,
{
    match f {
        D3DFMT_A8R8G8B8 | D3DFMT_X8R8G8B8 | D3DFMT_D24S8 | D3DFMT_D24X8 | D3DFMT_D32 => Some(4),
        D3DFMT_R8G8B8 => Some(3),
        D3DFMT_R5G6B5
        | D3DFMT_X1R5G5B5
        | D3DFMT_A1R5G5B5
        | D3DFMT_A4R4G4B4
        | D3DFMT_X4R4G4B4
        | D3DFMT_A8L8
        | D3DFMT_A8P8
        | D3DFMT_D16
        | D3DFMT_D16_LOCKABLE
        | D3DFMT_D15S1 => Some(2),
        D3DFMT_A8 | D3DFMT_P8 | D3DFMT_L8 | D3DFMT_A4L4 => Some(1),
        _ => None,
    }
}

/// A D3D9 surface description.
#[derive(Clone, Copy, Debug, PartialEq, Eq, Structural)]
pub struct SurfaceDesc9 {
    pub format: Format,
    pub resource_type: i32,
    pub usage: u32,
    pub pool: u32,
    pub multi_sample_type: i32,
    pub multi_sample_quality: u32,
    pub width: u32,
    pub height: u32,
}

impl Default for SurfaceDesc9 {
    fn default() -> (desc: SurfaceDesc9)
        ensures
            desc == (SurfaceDesc9 {
                format: 0,
                resource_type: 0,
                usage: 0,
                pool: 0,
                multi_sample_type: 0,
                multi_sample_quality: 0,
                width: 0,
                height: 0,
            }),
    {
        SurfaceDesc9 {
            format: 0,
            resource_type: 0,
            usage: 0,
            pool: 0,
            multi_sample_type: 0,
            multi_sample_quality: 0,
            width: 0,
            height: 0,
        }
    }
}

/// A D3D8 surface description.
#[derive(Clone, Copy, Debug, PartialEq, Eq, Structural)]
pub struct SurfaceDesc8 {
    pub format: Format,
    pub resource_type: u32,
    pub usage: u32,
    pub pool: u32,
    /// D3D8 only: the size in bytes.
    pub size: u32,
    pub multi_sample_type: i32,
    pub width: u32,
    pub height: u32,
}

/// The product, or the largest 32-bit integer if it is above that.
pub open spec fn saturated(n: int) -> u32 {
    if n <= u32::MAX {
        n as u32
    } else {
        u32::MAX
    }
}

/// The size of a surface in bytes, counting 4 bytes per pixel where the format does not
/// say: no D3D8 format exceeds that, so no caller underallocates.
pub open spec fn surface_size(width: u32, height: u32, format: Format) -> u32 {
    saturated(
        width as int * height as int * match pixel_bytes(format) {
            Some(n) => n as int,
            None => 4,
        },
    )
}

fn saturating_mul(a: u32, b: u32) -> (res: u32)
    ensures
        res == saturated(a as int * b as int),
{
    assert(0 <= a as int * b as int <= u32::MAX * u32::MAX) by (nonlinear_arith)
        requires
            0 <= a <= u32::MAX,
            0 <= b <= u32::MAX,
    ;
    let product: u64 = a as u64 * b as u64;
    if product <= u32::MAX as u64 {
        product as u32
    } else {
        u32::MAX
    }
}

/// The D3D8 description of a surface.
pub open spec fn desc_8(d: SurfaceDesc9) -> SurfaceDesc8 {
    SurfaceDesc8 {
        format: d.format,
        resource_type: bytes::as_unsigned(d.resource_type),
        usage: d.usage,
        pool: d.pool,
        size: surface_size(d.width, d.height, d.format),
        multi_sample_type: d.multi_sample_type,
        width: d.width,
        height: d.height,
    }
}

/// Translates a surface description.
pub fn surface_desc_9_to_8(d: &SurfaceDesc9) -> (res: SurfaceDesc8)
    ensures
        res == desc_8(*d),
{
    let bytes_pp: u32 = match bytes_per_pixel(d.format) {
        Some(n) => n,
        None => 4,
    };
    let pixels: u32 = saturating_mul(d.width, d.height);
    let size: u32 = saturating_mul(pixels, bytes_pp);
    proof {
        let (w, h, b) = (d.width as int, d.height as int, bytes_pp as int);
        assert(w * h >= 0) by (nonlinear_arith)
            requires
                w >= 0,
                h >= 0,
        ;
        if w * h > u32::MAX {
            assert(w * h * b > u32::MAX) by (nonlinear_arith)
                requires
                    w * h > u32::MAX,
                    b >= 1,
            ;
            assert(u32::MAX * b >= u32::MAX) by (nonlinear_arith)
                requires
                    b >= 1,
            ;
        }
    }
    SurfaceDesc8 {
        format: d.format,
        resource_type: cast_unsigned(d.resource_type),
        usage: d.usage,
        pool: d.pool,
        size,
        multi_sample_type: d.multi_sample_type,
        width: d.width,
        height: d.height,
    }
}

/// The D3D9 sampler state that a D3D8 texture stage state became.
pub open spec fn sampler_of(ty: u32) -> Option<u32> {
    if 13 <= ty <= 14 {
        // ADDRESSU, ADDRESSV
        Some((ty - 12) as u32)
    } else if ty == 25 {
        // ADDRESSW
        Some(3u32)
    } else if 15 <= ty <= 21 {
        // BORDERCOLOR, MAGFILTER, MINFILTER, MIPFILTER, MIPMAPLODBIAS, MAXMIPLEVEL,
        // MAXANISOTROPY
        Some((ty - 11) as u32)
    } else {
        None
    }
}

/// Maps a D3D8 texture stage state type to its corresponding D3D9 sampler state if
/// applicable, or `None` if it stayed a stage state.
pub fn tss_to_sampler_state(ty: u32) -> (res: Option<u32>)
    ensures
        res == sampler_of(ty),
{
    match ty {
        13 => Some(1),
        14 => Some(2),
        25 => Some(3),
        15 => Some(4),
        16 => Some(5),
        17 => Some(6),
        18 => Some(7),
        19 => Some(8),
        20 => Some(9),
        21 => Some(10),
        _ => None,
    }
}

/// Distinct stage states become distinct sampler states.
pub proof fn lemma_sampler_states_distinct(a: u32, b: u32)
    requires
        sampler_of(a) is Some,
        sampler_of(a) == sampler_of(b),
    ensures
        a == b,
{
}

/// What setting a texture stage state becomes.
#[derive(Clone, Copy, Debug, PartialEq, Eq, Structural)]
pub enum StageStateCall {
    SamplerState { sampler: u32 },
    StageState { ty: i32 },
}

/// Decides the D3D9 call for a texture stage state; a dead device refuses.
pub fn set_texture_stage_state(device: &ComHeader, ty: u32) -> (res: Result<
    StageStateCall,
    HResult,
>)
    ensures
        res == if device.wrapped() is None {
            Err(D3DERR_INVALIDCALL)
        } else {
            match sampler_of(ty) {
                Some(sampler) => Ok(StageStateCall::SamplerState { sampler }),
                None => Ok(StageStateCall::StageState { ty: bytes::as_signed(ty) }),
            }
        },
{
    if device.inner().is_none() {
        return Err(D3DERR_INVALIDCALL);
    }
    match tss_to_sampler_state(ty) {
        Some(sampler) => Ok(StageStateCall::SamplerState { sampler }),
        None => Ok(StageStateCall::StageState { ty: cast_signed(ty) }),
    }
}

/// D3D8 render states that D3D9 removed.
pub const D3DRS8_LINEPATTERN: u32 = 10;

pub const D3DRS8_ZVISIBLE: u32 = 30;

pub const D3DRS8_EDGEANTIALIAS: u32 = 40;

pub const D3DRS8_ZBIAS: u32 = 47;

pub const D3DRS8_SOFTWAREVERTEXPROCESSING: u32 = 153;

pub const D3DRS8_PATCHSEGMENTS: u32 = 164;

/// What setting a render state becomes.
#[derive(Clone, Copy, Debug, PartialEq, Eq, Structural)]
pub enum RenderStateCall {
    /// Nothing is called and success reported. `expected` says that the games are known to
    /// do this harmlessly.
    Dropped { expected: bool },
    SoftwareVertexProcessing { enable: i32 },
    /// The value holds the bits of a floating-point number of segments.
    NPatchMode { bits: u32 },
    RenderState { state: i32, value: u32 },
}

/// The call for render state `state` with `value`.
pub open spec fn render_state_call(state: u32, value: u32) -> RenderStateCall {
    if state == D3DRS8_EDGEANTIALIAS {
        RenderStateCall::Dropped { expected: true }
    } else if state == D3DRS8_LINEPATTERN || state == D3DRS8_ZVISIBLE || state == D3DRS8_ZBIAS {
        RenderStateCall::Dropped { expected: false }
    } else if state == D3DRS8_SOFTWAREVERTEXPROCESSING {
        RenderStateCall::SoftwareVertexProcessing { enable: bytes::as_signed(value) }
    } else if state == D3DRS8_PATCHSEGMENTS {
        RenderStateCall::NPatchMode { bits: value }
    } else {
        RenderStateCall::RenderState { state: bytes::as_signed(state), value }
    }
}

/// Decides the D3D9 call for a render state; a dead device refuses.
pub fn set_render_state(device: &ComHeader, state: u32, value: u32) -> (res: Result<
    RenderStateCall,
    HResult,
>)
    ensures
        res == if device.wrapped() is None {
            Err(D3DERR_INVALIDCALL)
        } else {
            Ok(render_state_call(state, value))
        },
        res matches Ok(RenderStateCall::RenderState { value: passed, .. }) ==> passed == value,
        res matches Ok(RenderStateCall::NPatchMode { bits }) ==> bits == value,
        res is Err <==> device.wrapped() is None,
{
    if device.inner().is_none() {
        return Err(D3DERR_INVALIDCALL);
    }
    Ok(
        match state {
            D3DRS8_EDGEANTIALIAS => RenderStateCall::Dropped { expected: true },
            D3DRS8_LINEPATTERN | D3DRS8_ZVISIBLE | D3DRS8_ZBIAS => RenderStateCall::Dropped {
                expected: false,
            },
            D3DRS8_SOFTWAREVERTEXPROCESSING => RenderStateCall::SoftwareVertexProcessing {
                enable: cast_signed(value),
            },
            D3DRS8_PATCHSEGMENTS => RenderStateCall::NPatchMode { bits: value },
            _ => RenderStateCall::RenderState { state: cast_signed(state), value },
        },
    )
}

/// A rectangle; right and bottom are exclusive.
#[derive(Clone, Copy, Debug, PartialEq, Eq, Structural)]
pub struct Rect {
    pub left: i32,
    pub top: i32,
    pub right: i32,
    pub bottom: i32,
}

#[derive(Clone, Copy, Debug, PartialEq, Eq, Structural)]
pub struct Point {
    pub x: i32,
    pub y: i32,
}

/// Whether `r` is a positive-extent rect inside a source of the size of `sd`, and `pt`
/// places its extent inside a destination of the size of `dd`.
pub open spec fn copy_fits(r: Rect, pt: Point, sd: SurfaceDesc9, dd: SurfaceDesc9) -> bool {
    &&& 0 <= r.left < r.right <= sd.width
    &&& 0 <= r.top < r.bottom <= sd.height
    &&& 0 <= pt.x && pt.x + (r.right - r.left) <= dd.width
    &&& 0 <= pt.y && pt.y + (r.bottom - r.top) <= dd.height
}

/// Returns whether `r` is a positive-extent rect inside the source surface and `pt`
/// places its extent inside the destination surface.
pub fn copy_rect_valid(r: &Rect, pt: &Point, sd: &SurfaceDesc9, dd: &SurfaceDesc9) -> (res: bool)
    ensures
        res == copy_fits(*r, *pt, *sd, *dd),
{
    let w: i64 = r.right as i64 - r.left as i64;
    let h: i64 = r.bottom as i64 - r.top as i64;
    w > 0 && h > 0 && r.left >= 0 && r.top >= 0 && r.right as i64 <= sd.width as i64
        && r.bottom as i64 <= sd.height as i64 && pt.x >= 0 && pt.y >= 0 && pt.x as i64 + w
        <= dd.width as i64 && pt.y as i64 + h <= dd.height as i64
}

/// The rectangle of the size of `r` at `pt`.
pub open spec fn moved_to(r: Rect, pt: Point) -> Rect {
    Rect {
        left: pt.x,
        top: pt.y,
        right: (pt.x + (r.right - r.left)) as i32,
        bottom: (pt.y + (r.bottom - r.top)) as i32,
    }
}

/// Whether the rectangle of the size of `r` at `pt` has 32-bit coordinates.
pub open spec fn movable(r: Rect, pt: Point) -> bool {
    &&& 0 <= r.right - r.left <= i32::MAX
    &&& 0 <= r.bottom - r.top <= i32::MAX
    &&& pt.x + (r.right - r.left) <= i32::MAX
    &&& pt.y + (r.bottom - r.top) <= i32::MAX
}

/// Moves `r` to `pt`.
pub fn dest_rect(r: &Rect, pt: &Point) -> (res: Rect)
    requires
        movable(*r, *pt),
    ensures
        res == moved_to(*r, *pt),
{
    Rect {
        left: pt.x,
        top: pt.y,
        right: pt.x + (r.right - r.left),
        bottom: pt.y + (r.bottom - r.top),
    }
}

/// The direction-specific D3D9 call that fits a pool pair. Each carries a restriction that
/// D3D8's `CopyRects` does not, so a refused call is followed by a locked copy.
#[derive(Clone, Copy, Debug, PartialEq, Eq, Structural)]
pub enum CopyCall {
    UpdateSurface,
    /// Whole surfaces of identical dimensions only.
    GetRenderTargetData,
    StretchRect,
}

/// A copy to make.
#[derive(Clone, Copy, Debug, PartialEq, Eq, Structural)]
pub struct CopyPlan {
    pub rect: Rect,
    pub point: Point,
    /// The call to try before the locked copy.
    pub call: Option<CopyCall>,
}

/// Whether a copy takes the whole of two surfaces of the same size.
pub open spec fn whole_surface(r: Rect, pt: Point, sd: SurfaceDesc9, dd: SurfaceDesc9) -> bool {
    &&& r.left == 0 && r.top == 0
    &&& bytes::as_unsigned(r.right) == sd.width
    &&& bytes::as_unsigned(r.bottom) == sd.height
    &&& pt.x == 0 && pt.y == 0
    &&& sd.width == dd.width && sd.height == dd.height
}

/// The call for a copy from `sd` to `dd`.
pub open spec fn copy_call_of(
    r: Rect,
    pt: Point,
    sd: SurfaceDesc9,
    dd: SurfaceDesc9,
) -> Option<CopyCall> {
    if sd.pool == D3DPOOL_SYSTEMMEM && dd.pool == D3DPOOL_DEFAULT {
        Some(CopyCall::UpdateSurface)
    } else if sd.pool == D3DPOOL_DEFAULT && dd.pool == D3DPOOL_SYSTEMMEM {
        if whole_surface(r, pt, sd, dd) {
            Some(CopyCall::GetRenderTargetData)
        } else {
            None
        }
    } else if sd.pool == D3DPOOL_DEFAULT && dd.pool == D3DPOOL_DEFAULT {
        Some(CopyCall::StretchRect)
    } else {
        None
    }
}

/// Chooses the D3D9 call for one rectangle.
pub fn choose_copy_call(r: &Rect, pt: &Point, sd: &SurfaceDesc9, dd: &SurfaceDesc9) -> (res: Option<
    CopyCall,
>)
    ensures
        res == copy_call_of(*r, *pt, *sd, *dd),
{
    if sd.pool == D3DPOOL_SYSTEMMEM && dd.pool == D3DPOOL_DEFAULT {
        Some(CopyCall::UpdateSurface)
    } else if sd.pool == D3DPOOL_DEFAULT && dd.pool == D3DPOOL_SYSTEMMEM {
        let full = r.left == 0 && r.top == 0 && cast_unsigned(r.right) == sd.width
            && cast_unsigned(r.bottom) == sd.height && pt.x == 0 && pt.y == 0 && sd.width
            == dd.width && sd.height == dd.height;
        if full {
            Some(CopyCall::GetRenderTargetData)
        } else {
            None
        }
    } else if sd.pool == D3DPOOL_DEFAULT && dd.pool == D3DPOOL_DEFAULT {
        Some(CopyCall::StretchRect)
    } else {
        None
    }
}

/// The rectangle and point that a `CopyRects` request means: the whole source to the
/// origin without a rectangle, and a rectangle to its own position without a point.
pub open spec fn requested_copy(
    sd: SurfaceDesc9,
    rect: Option<Rect>,
    point: Option<Point>,
) -> (Rect, Point) {
    match rect {
        None => (
            Rect {
                left: 0,
                top: 0,
                right: bytes::as_signed(sd.width),
                bottom: bytes::as_signed(sd.height),
            },
            Point { x: 0, y: 0 },
        ),
        Some(r) => (
            r,
            match point {
                Some(pt) => pt,
                None => Point { x: r.left, y: r.top },
            },
        ),
    }
}

/// Decides a `CopyRects` call between two surfaces whose descriptions were queried (absent
/// where the surface is null, dead, or the query failed). `rect` and `point` are the
/// first of each array, where there is one. More than one rectangle is not supported.
pub fn plan_copy_rects(
    device: &ComHeader,
    sd: Option<SurfaceDesc9>,
    dd: Option<SurfaceDesc9>,
    rect: Option<Rect>,
    rect_count: u32,
    point: Option<Point>,
) -> (res: Result<CopyPlan, HResult>)
    ensures
        res == if sd is None || dd is None || sd->0.format != dd->0.format || device.wrapped()
            is None || rect_count > 1 {
            Err(D3DERR_INVALIDCALL)
        } else {
            let asked = if rect_count == 0 {
                None
            } else {
                rect
            };
            let (r, pt) = requested_copy(sd->0, asked, point);
            if copy_fits(r, pt, sd->0, dd->0) {
                Ok(CopyPlan { rect: r, point: pt, call: copy_call_of(r, pt, sd->0, dd->0) })
            } else {
                Err(D3DERR_INVALIDCALL)
            }
        },
{
    let (s, d) = match (sd, dd) {
        (Some(s), Some(d)) => (s, d),
        _ => {
            return Err(D3DERR_INVALIDCALL);
        },
    };
    if s.format != d.format || device.inner().is_none() || rect_count > 1 {
        return Err(D3DERR_INVALIDCALL);
    }
    let (r, pt) = match rect {
        Some(r) if rect_count == 1 => (
            r,
            match point {
                Some(pt) => pt,
                None => Point { x: r.left, y: r.top },
            },
        ),
        _ => (
            Rect {
                left: 0,
                top: 0,
                right: cast_signed(s.width),
                bottom: cast_signed(s.height),
            },
            Point { x: 0, y: 0 },
        ),
    };
    if !copy_rect_valid(&r, &pt, &s, &d) {
        return Err(D3DERR_INVALIDCALL);
    }
    Ok(CopyPlan { rect: r, point: pt, call: choose_copy_call(&r, &pt, &s, &d) })
}

/// Returns whether the locked copy follows: no call fits, or the call failed.
pub fn needs_locked_copy(call_result: Option<HResult>) -> (res: bool)
    ensures
        res == !(call_result is Some && d3d::succeeded(call_result->0)),
{
    match call_result {
        Some(hr) => !is_ok(hr),
        None => true,
    }
}

/// A copy of rows between two locked surfaces.
#[derive(Clone, Copy, Debug, PartialEq, Eq, Structural)]
pub struct LockedCopy {
    pub width_bytes: u32,
    pub rows: u32,
    pub dst_rect: Rect,
}

/// Prepares the lock-and-copy fallback for two surfaces of the common `format`. Formats
/// whose rows are no plain arrays, and copies of a surface onto itself, are refused.
pub fn plan_locked_copy(format: Format, src: usize, dst: usize, r: &Rect, pt: &Point) -> (res:
    Result<LockedCopy, HResult>)
    requires
        movable(*r, *pt),
        pixel_bytes(format) is Some ==> (r.right - r.left) * pixel_bytes(format)->0 <= u32::MAX,
    ensures
        res == match pixel_bytes(format) {
            Some(bytes_pp) if src != dst => Ok(
                LockedCopy {
                    width_bytes: ((r.right - r.left) * bytes_pp) as u32,
                    rows: (r.bottom - r.top) as u32,
                    dst_rect: moved_to(*r, *pt),
                },
            ),
            _ => Err(D3DERR_INVALIDCALL),
        },
{
    let bytes_pp: u32 = match bytes_per_pixel(format) {
        Some(n) => n,
        None => {
            return Err(D3DERR_INVALIDCALL);
        },
    };
    if src == dst {
        return Err(D3DERR_INVALIDCALL);
    }
    Ok(
        LockedCopy {
            width_bytes: (r.right - r.left) as u32 * bytes_pp,
            rows: (r.bottom - r.top) as u32,
            dst_rect: dest_rect(r, pt),
        },
    )
}

/// `dst` with `rows` rows of `width` bytes taken over from `src`, the rows lying
/// `src_pitch` and `dst_pitch` bytes apart.
pub open spec fn rows_copied(
    src: Seq<u8>,
    dst: Seq<u8>,
    src_pitch: int,
    dst_pitch: int,
    width: int,
    rows: int,
) -> Seq<u8> {
    Seq::new(
        dst.len(),
        |i: int|
            if i / dst_pitch < rows && i % dst_pitch < width {
                src[i / dst_pitch * src_pitch + i % dst_pitch]
            } else {
                dst[i]
            },
    )
}

/// Copies `rows` rows of `width` bytes.
pub fn copy_rows(
    src: &[u8],
    src_pitch: usize,
    dst: &mut Vec<u8>,
    dst_pitch: usize,
    width: usize,
    rows: usize,
)
    requires
        0 < width <= src_pitch,
        width <= dst_pitch,
        rows > 0 ==> (rows - 1) * src_pitch + width <= src@.len(),
        rows > 0 ==> (rows - 1) * dst_pitch + width <= old(dst)@.len(),
    ensures
        final(dst)@ == rows_copied(
            src@,
            old(dst)@,
            src_pitch as int,
            dst_pitch as int,
            width as int,
            rows as int,
        ),
{
    let ghost before = dst@;
    let ghost (sp, dp, w) = (src_pitch as int, dst_pitch as int, width as int);
    let mut row: usize = 0;
    let mut src_at: usize = 0;
    let mut dst_at: usize = 0;
    assert(dst@ =~= rows_copied(src@, before, sp, dp, w, 0)) by {
        assert forall|i: int| 0 <= i < before.len() implies rows_copied(src@, before, sp, dp, w, 0)[i] == before[i] by {
            assert(i / dp >= 0) by (nonlinear_arith)
                requires
                    i >= 0,
                    dp > 0,
            ;
        }
    }
    if rows == 0 {
        return;
    }
    while row < rows
        invariant
            0 < rows,
            row <= rows,
            0 < width <= src_pitch,
            width <= dst_pitch,
            (sp, dp, w) == (src_pitch as int, dst_pitch as int, width as int),
            (rows - 1) * src_pitch + width <= src.len(),
            (rows - 1) * dst_pitch + width <= before.len(),
            row < rows ==> src_at == row * src_pitch,
            row < rows ==> dst_at == row * dst_pitch,
            before.len() == dst.len(),
            dst@ == rows_copied(src@, before, sp, dp, w, row as int),
        decreases rows - row,
    {
        proof {
            assert(row * sp <= (rows - 1) * sp && row * dp <= (rows - 1) * dp) by (nonlinear_arith)
                requires
                    row <= rows - 1,
                    sp > 0,
                    dp > 0,
            ;
            assert((row + 1) * sp == row * sp + sp && (row + 1) * dp == row * dp + dp)
                by (nonlinear_arith);
            if row + 1 < rows {
                assert((row + 1) * sp <= (rows - 1) * sp && (row + 1) * dp <= (rows - 1) * dp)
                    by (nonlinear_arith)
                    requires
                        row + 1 <= rows - 1,
                        sp > 0,
                        dp > 0,
                ;
            }
        }
        let ghost at_row = dst@;
        let mut col: usize = 0;
        while col < width
            invariant
                col <= width,
                width <= src_pitch,
                width <= dst_pitch,
                src_at + width <= src.len(),
                dst_at + width <= dst.len(),
                dst.len() == at_row.len(),
                forall|i: int|
                    0 <= i < at_row.len() ==> #[trigger] dst@[i] == if dst_at <= i < dst_at + col {
                        src@[src_at + (i - dst_at)]
                    } else {
                        at_row[i]
                    },
            decreases width - col,
        {
            dst.set(dst_at + col, src[src_at + col]);
            col += 1;
        }
        proof {
            let next = rows_copied(src@, before, sp, dp, w, row + 1);
            assert forall|i: int| 0 <= i < before.len() implies dst@[i] == next[i] by {
                lemma_row_of(i, dp, row as int);
                if dst_at <= i < dst_at + dp {
                    assert(i / dp == row && i % dp == i - dst_at);
                }
            }
            assert(dst@ =~= next);
        }
        row += 1;
        if row < rows {
            src_at += src_pitch;
            dst_at += dst_pitch;
        }
    }
}

/// Which row a byte lies in.
proof fn lemma_row_of(i: int, pitch: int, row: int)
    requires
        0 <= i,
        0 < pitch,
        0 <= row,
    ensures
        i / pitch == row <==> row * pitch <= i < (row + 1) * pitch,
        i / pitch == row ==> i % pitch == i - row * pitch,
        i / pitch < row <==> i < row * pitch,
        0 <= i % pitch < pitch,
{
    vstd::arithmetic::div_mod::lemma_fundamental_div_mod(i, pitch);
    let q = i / pitch;
    assert(0 <= i % pitch < pitch) by (nonlinear_arith)
        requires
            0 < pitch,
    ;
    assert(pitch * q == q * pitch) by (nonlinear_arith);
    assert((row + 1) * pitch == row * pitch + pitch) by (nonlinear_arith);
    if q < row {
        assert((q + 1) * pitch <= row * pitch) by (nonlinear_arith)
            requires
                q + 1 <= row,
                pitch > 0,
        ;
        assert((q + 1) * pitch == q * pitch + pitch) by (nonlinear_arith);
    }
    if q > row {
        assert((row + 1) * pitch <= q * pitch) by (nonlinear_arith)
            requires
                row + 1 <= q,
                pitch > 0,
        ;
    }
}

/// The type of a back buffer that is no stereo image.
pub const D3DBACKBUFFER_TYPE_MONO: i32 = 0;

/// What `GetBackBuffer` gives the game.
#[derive(Clone, Copy, Debug, PartialEq, Eq, Structural)]
pub enum BackBufferAnswer {
    /// Null.
    Nothing,
    /// The wrapper embedded in the device.
    Embedded,
    /// A wrapper of its own.
    Fresh(Resource8),
}

/// The result of `GetBackBuffer`.
#[derive(Clone, Copy, Debug, PartialEq, Eq, Structural)]
pub struct BackBufferResult {
    pub hr: HResult,
    pub answer: BackBufferAnswer,
    /// A surface reference that is redundant and to be released.
    pub release: Option<NonZeroUsize>,
}

/// A device wrapper: itself, its parent, and the wrapper for its back buffer.
#[derive(Clone, Copy, Debug, PartialEq, Eq, Structural)]
pub struct Device8 {
    pub owners: Owners,
    pub back_buffer: Resource8,
}

impl Device8 {
    /// The references of the device's headers are in order.
    pub open spec fn wf(self) -> bool {
        self.owners.wf() && self.back_buffer.header.wf()
    }

    /// Answers `GetBackBuffer` on a live device after the wrapped device gave `hr` and
    /// `surface`. The first back buffer has its wrapper embedded in the device, which
    /// adopts the surface; every other one gets a wrapper of its own.
    pub fn get_back_buffer(&mut self, index: u32, ty: i32, hr: HResult, surface: usize) -> (res:
        BackBufferResult)
        requires
            old(self).wf(),
            com8::refs_of(old(self).owners.device) < u32::MAX,
            old(self).back_buffer.header.refs() < u32::MAX,
        ensures
            final(self).wf(),
            final(self).owners.parent == old(self).owners.parent,
            final(self).owners.device is Some <==> old(self).owners.device is Some,
            com8::wrapped_of(final(self).owners.device) == com8::wrapped_of(
                old(self).owners.device,
            ),
            final(self).back_buffer.internal_flags == old(self).back_buffer.internal_flags,
            !d3d::succeeded(hr) ==> res == (BackBufferResult {
                hr,
                answer: BackBufferAnswer::Nothing,
                release: None,
            }) && *final(self) == *old(self),
            d3d::succeeded(hr) && surface == 0 ==> res == (BackBufferResult {
                hr: D3DERR_INVALIDCALL,
                answer: BackBufferAnswer::Nothing,
                release: None,
            }) && *final(self) == *old(self),
            d3d::succeeded(hr) && surface != 0 && !(index == 0 && ty == D3DBACKBUFFER_TYPE_MONO)
                ==> {
                &&& res.hr == hr
                &&& res.release is None
                &&& res.answer is Fresh
                &&& res.answer->Fresh_0.header.wf()
                &&& res.answer->Fresh_0.header.refs() == 1
                &&& res.answer->Fresh_0.header.wrapped() is Some
                &&& res.answer->Fresh_0.header.wrapped()->0@ == surface
                &&& res.answer->Fresh_0.internal_flags == com8::D3D8_INTERNAL_LOCKABLE
                &&& final(self).back_buffer == old(self).back_buffer
                &&& com8::refs_of(final(self).owners.device) == com8::refs_plus(
                    old(self).owners.device,
                )
            },
            d3d::succeeded(hr) && surface != 0 && index == 0 && ty == D3DBACKBUFFER_TYPE_MONO ==> {
                let held = old(self).back_buffer.header.wrapped();
                if held is Some && held->0@ != surface {
                    &&& res.hr == D3DERR_INVALIDCALL
                    &&& res.answer is Nothing
                    &&& res.release is Some && res.release->0@ == surface
                    &&& *final(self) == *old(self)
                } else {
                    &&& res.hr == hr
                    &&& res.answer is Embedded
                    &&& final(self).back_buffer.header.wrapped() is Some
                    &&& final(self).back_buffer.header.wrapped()->0@ == surface
                    &&& final(self).back_buffer.header.refs() == old(self).back_buffer.header.refs()
                        + 1
                    &&& res.release is Some <==> held is Some
                    &&& res.release is Some ==> res.release->0@ == surface
                    &&& com8::refs_of(final(self).owners.device) == (if held is Some {
                        com8::refs_of(old(self).owners.device) as int
                    } else {
                        com8::refs_plus(old(self).owners.device)
                    })
                }
            },
    {
        if index != 0 || ty != D3DBACKBUFFER_TYPE_MONO {
            let Created { hr, resource } = wrap_created(hr, surface, &mut self.owners, true);
            let answer = match resource {
                Some(fresh) => BackBufferAnswer::Fresh(fresh),
                None => BackBufferAnswer::Nothing,
            };
            return BackBufferResult { hr, answer, release: None };
        }
        if !is_ok(hr) {
            return BackBufferResult { hr, answer: BackBufferAnswer::Nothing, release: None };
        }
        let object = match NonZeroUsize::new(surface) {
            Some(object) => object,
            None => {
                return BackBufferResult {
                    hr: D3DERR_INVALIDCALL,
                    answer: BackBufferAnswer::Nothing,
                    release: None,
                };
            },
        };
        let Adoption { adopted, release } = self.back_buffer.adopt(&mut self.owners, object);
        if !adopted {
            return BackBufferResult {
                hr: D3DERR_INVALIDCALL,
                answer: BackBufferAnswer::Nothing,
                release,
            };
        }
        BackBufferResult { hr, answer: BackBufferAnswer::Embedded, release }
    }
}

/// Finishes `CreateDevice` after the wrapped object gave `hr`, `dev9` and the parameters
/// `pp9` that the device ended up with: on success the game's parameters are brought up
/// to date, and the new device takes a reference on its parent. Its back buffer wrapper
/// is dead until a surface is adopted.
pub fn create_device(
    parent: &mut ComHeader,
    hr: HResult,
    dev9: usize,
    pp8: &mut PresentParameters8,
    pp9: &PresentParameters,
) -> (res: Result<Device8, HResult>)
    requires
        old(parent).wf(),
        old(parent).refs() < u32::MAX,
    ensures
        final(parent).wf(),
        !d3d::succeeded(hr) ==> res == Err::<Device8, HResult>(hr),
        d3d::succeeded(hr) && dev9 == 0 ==> res == Err::<Device8, HResult>(D3DERR_INVALIDCALL),
        d3d::succeeded(hr) && dev9 != 0 ==> res is Ok,
        res is Err ==> *final(parent) == *old(parent) && *final(pp8) == *old(pp8),
        res is Ok ==> {
            let device = res->Ok_0;
            &&& device.wf()
            &&& com8::refs_of(device.owners.device) == 1
            &&& com8::wrapped_of(device.owners.device) is Some
            &&& com8::wrapped_of(device.owners.device)->0@ == dev9
            &&& device.owners.parent == Some(*final(parent))
            &&& device.back_buffer.header.refs() == 0
            &&& device.back_buffer.header.wrapped() is None
            &&& device.back_buffer.internal_flags == com8::D3D8_INTERNAL_LOCKABLE
            &&& final(parent).refs() == com8::refs_plus(Some(*old(parent)))
            &&& final(parent).wrapped() == old(parent).wrapped()
            &&& *final(pp8) == (PresentParameters8 {
                back_buffer_width: pp9.back_buffer_width,
                back_buffer_height: pp9.back_buffer_height,
                back_buffer_format: pp9.back_buffer_format,
                ..*old(pp8)
            })
        },
{
    if !is_ok(hr) {
        return Err(hr);
    }
    let inner = match NonZeroUsize::new(dev9) {
        Some(inner) => inner,
        None => {
            return Err(D3DERR_INVALIDCALL);
        },
    };
    sync_present_params_back(pp8, pp9);
    parent.add_ref();
    Ok(
        Device8 {
            owners: Owners { device: Some(ComHeader::new_alive(inner)), parent: Some(*parent) },
            back_buffer: Resource8::new_dead(),
        },
    )
}

/// Registers the callback that runs before `Direct3DCreate8`; the first caller wins.
pub fn set_pre_create_fn<F: Copy>(slot: &mut FnSlot<F>, f: F)
    ensures
        final(slot)@ == if old(slot)@ is Some {
            old(slot)@
        } else {
            Some(f)
        },
        final(slot).label() == old(slot).label(),
{
    if slot.try_get().is_none() {
        slot.store(f);
    }
}

/// Returns a patch that rewrites a `Direct3DCreate8` call site to a direct call to
/// `hook`, bypassing any downstream import hook.
pub fn call_site_rewrite<const N: usize>(addr: u32, expected: &[u8; N], hook: u32) -> (site:
    PatchSite)
    requires
        REL32_LEN <= N <= MAX_PATCH_LEN,
    ensures
        site.wf(),
        site.addr() == addr,
        site.expected() == expected@,
        site.replacement() == patches::branch_bytes(OPCODE_CALL, addr, hook, N as int),
        site.branch_to() == Some((OPCODE_CALL, hook)),
        site.label() == "Direct3DCreate8 call-site rewrite"@,
{
    PatchSite::call(addr, expected, hook, "Direct3DCreate8 call-site rewrite")
}

/// The policy that every device created through the D3D8 translation gets: the games'
/// D3DX8 locks the back buffer, and the 32-bit substitution is made up front.
pub fn shim_policy() -> (policy: PresentPolicy)
    ensures
        policy == (PresentPolicy {
            keep_lockable_back_buffer: true,
            upgrade_16bit_back_buffer: true,
        }),
{
    PresentPolicy { keep_lockable_back_buffer: true, upgrade_16bit_back_buffer: true }
}

/// Everything that a request and its translation have in common is carried over, but for
/// the swap effect. The effects that the newer runtime lacks become copies; a flip with
/// multisampling, which a copy does not allow, becomes a discard; the others are kept.
pub proof fn lemma_params_9(pp8: PresentParameters8)
    ensures
        ({
            let pp9 = params_9(pp8);
            &&& pp9.windowed == pp8.windowed
            &&& pp9.back_buffer_width == pp8.back_buffer_width
            &&& pp9.back_buffer_height == pp8.back_buffer_height
            &&& pp9.back_buffer_format == pp8.back_buffer_format
            &&& pp9.back_buffer_count == pp8.back_buffer_count
            &&& pp9.multi_sample_type == pp8.multi_sample_type
            &&& pp9.multi_sample_quality == 0
            &&& pp9.device_window == pp8.device_window
            &&& pp9.enable_auto_depth_stencil == pp8.enable_auto_depth_stencil
            &&& pp9.auto_depth_stencil_format == pp8.auto_depth_stencil_format
            &&& pp9.flags == pp8.flags
            &&& pp9.refresh_rate == pp8.refresh_rate
            &&& pp9.presentation_interval == pp8.presentation_interval
            &&& pp8.swap_effect == 4 ==> pp9.swap_effect == 3
            &&& pp8.swap_effect == 2 && pp8.multi_sample_type == 0 ==> pp9.swap_effect == 3
            &&& pp8.swap_effect == 2 && pp8.multi_sample_type != 0 ==> pp9.swap_effect == 1
            &&& pp8.swap_effect != 2 && pp8.swap_effect != 4 ==> bytes::as_unsigned(pp9.swap_effect)
                == pp8.swap_effect
        }),
{
    bytes::lemma_read_back(pp8.swap_effect, 0);
}

/// The formats whose pixels are plain bytes, by their codes and sizes.
pub proof fn lemma_pixel_bytes(f: Format)
    ensures
        pixel_bytes(f) == Some(4u32) <==> f == 21 || f == 22 || f == 71 || f == 75 || f == 77,
        pixel_bytes(f) == Some(3u32) <==> f == 20,
        pixel_bytes(f) == Some(2u32) <==> 23 <= f <= 26 || f == 30 || f == 40 || f == 51 || f == 70
            || f == 73 || f == 80,
        pixel_bytes(f) == Some(1u32) <==> f == 28 || f == 41 || f == 50 || f == 52,
        pixel_bytes(f) is Some ==> 1 <= pixel_bytes(f)->0 <= 4,
{
}

/// A surface's size is its number of pixels times the bytes of one, four where the format
/// has no plain pixels; one that is too large to count has the largest size.
pub proof fn lemma_surface_size(width: u32, height: u32, format: Format)
    ensures
        pixel_bytes(format) is Some && width * height * pixel_bytes(format)->0 <= u32::MAX
            ==> surface_size(width, height, format) == width * height * pixel_bytes(format)->0,
        pixel_bytes(format) is None && width * height * 4 <= u32::MAX ==> surface_size(
            width,
            height,
            format,
        ) == width * height * 4,
        pixel_bytes(format) is Some && width * height * pixel_bytes(format)->0 > u32::MAX
            ==> surface_size(width, height, format) == u32::MAX,
        pixel_bytes(format) is None && width * height * 4 > u32::MAX ==> surface_size(
            width,
            height,
            format,
        ) == u32::MAX,
{
}

/// A translated description says of the surface what the original one does.
pub proof fn lemma_desc_8(d: SurfaceDesc9)
    ensures
        desc_8(d).format == d.format,
        bytes::as_signed(desc_8(d).resource_type) == d.resource_type,
        desc_8(d).usage == d.usage,
        desc_8(d).pool == d.pool,
        desc_8(d).multi_sample_type == d.multi_sample_type,
        desc_8(d).width == d.width && desc_8(d).height == d.height,
        desc_8(d).size == surface_size(d.width, d.height, d.format),
{
}

/// The stage states 13 to 21 and 25 moved to the sampler states 1 to 10. The first nine
/// kept their order, and the last one took the third place.
pub proof fn lemma_sampler_states(a: u32, b: u32)
    ensures
        sampler_of(a) is Some <==> 13 <= a <= 21 || a == 25,
        sampler_of(a) is Some ==> 1 <= sampler_of(a)->0 <= 10,
        sampler_of(25) == Some(3u32),
        13 <= a < b <= 21 ==> sampler_of(a)->0 < sampler_of(b)->0,
        13 <= a <= 21 ==> sampler_of(a)->0 != 3,
{
}

/// A render state that the newer runtime still has is set there as it is, to the value that
/// was passed in. Of the six others, four are dropped, of which the games are known to set
/// one, and two have methods of their own, which get the value.
pub proof fn lemma_render_states(state: u32, value: u32)
    ensures
        state != 10 && state != 30 && state != 40 && state != 47 && state != 153 && state != 164
            ==> match render_state_call(state, value) {
            RenderStateCall::RenderState { state: s, value: v } => {
                &&& v == value
                &&& bytes::as_unsigned(s) == state
                &&& state < 0x8000_0000 ==> s == state
            },
            _ => false,
        },
        state == 10 || state == 30 || state == 47 ==> render_state_call(state, value) == (
        RenderStateCall::Dropped { expected: false }),
        render_state_call(40, value) == (RenderStateCall::Dropped { expected: true }),
        match render_state_call(153, value) {
            RenderStateCall::SoftwareVertexProcessing { enable } => bytes::as_unsigned(enable)
                == value,
            _ => false,
        },
        render_state_call(164, value) == (RenderStateCall::NPatchMode { bits: value }),
{
    bytes::lemma_read_back(state, 0);
    bytes::lemma_read_back(value, 0);
}

/// A copy is allowed exactly when it has pixels, all of them lie in the source, and all of
/// them land in the destination.
pub proof fn lemma_copy_fits(r: Rect, pt: Point, sd: SurfaceDesc9, dd: SurfaceDesc9)
    ensures
        copy_fits(r, pt, sd, dd) <==> r.left < r.right && r.top < r.bottom && (forall|x: int, y: int|
            #[trigger] in_rect(r, x, y) ==> 0 <= x < sd.width && 0 <= y < sd.height && 0 <= pt.x + (
            x - r.left) < dd.width && 0 <= pt.y + (y - r.top) < dd.height),
{
    if r.left < r.right && r.top < r.bottom {
        assert(in_rect(r, r.left as int, r.top as int));
        assert(in_rect(r, r.right - 1, r.bottom - 1));
    }
}

/// Whether a rectangle holds the pixel at a position.
pub open spec fn in_rect(r: Rect, x: int, y: int) -> bool {
    r.left <= x < r.right && r.top <= y < r.bottom
}

/// Moving a rectangle moves each of its pixels by the same distance, the first one to the
/// point.
pub proof fn lemma_moved_to(r: Rect, pt: Point, x: int, y: int)
    requires
        movable(r, pt),
    ensures
        in_rect(moved_to(r, pt), pt.x + (x - r.left), pt.y + (y - r.top)) <==> in_rect(r, x, y),
{
}

/// Which call copies between two surfaces: from system memory to the device, within the
/// device, and, for the whole of surfaces of one size, from the device to system memory.
/// For everything else there is none.
pub proof fn lemma_copy_call(r: Rect, pt: Point, sd: SurfaceDesc9, dd: SurfaceDesc9)
    requires
        copy_fits(r, pt, sd, dd),
    ensures
        copy_call_of(r, pt, sd, dd) == Some(CopyCall::UpdateSurface) <==> sd.pool == 2 && dd.pool
            == 0,
        copy_call_of(r, pt, sd, dd) == Some(CopyCall::StretchRect) <==> sd.pool == 0 && dd.pool
            == 0,
        copy_call_of(r, pt, sd, dd) == Some(CopyCall::GetRenderTargetData) <==> sd.pool == 0
            && dd.pool == 2 && r.right - r.left == sd.width && r.bottom - r.top == sd.height
            && sd.width == dd.width && sd.height == dd.height,
{
}

/// Without a rectangle the whole source is copied to the origin; with one, that rectangle,
/// to the point if there is one, and else to where it stands in the source.
pub proof fn lemma_requested_copy(sd: SurfaceDesc9, rect: Option<Rect>, point: Option<Point>)
    ensures
        ({
            let (r, pt) = requested_copy(sd, rect, point);
            &&& rect is None ==> pt.x == 0 && pt.y == 0 && r.left == 0 && r.top == 0
                && bytes::as_unsigned(r.right) == sd.width && bytes::as_unsigned(r.bottom)
                == sd.height
            &&& rect is Some ==> r == rect->0
            &&& rect is Some && point is Some ==> pt == point->0
            &&& rect is Some && point is None ==> pt.x == r.left && pt.y == r.top
        }),
{
    bytes::lemma_read_back(sd.width, 0);
    bytes::lemma_read_back(sd.height, 0);
}

/// Copying rows puts byte `x` of row `y` of the source at byte `x` of row `y` of the
/// destination, and leaves what is behind the width of a row or behind the last row.
pub proof fn lemma_rows_copied(
    src: Seq<u8>,
    dst: Seq<u8>,
    src_pitch: int,
    dst_pitch: int,
    width: int,
    rows: int,
    x: int,
    y: int,
)
    requires
        0 < width <= dst_pitch,
        0 <= x < dst_pitch,
        0 <= y,
        y * dst_pitch + x < dst.len(),
    ensures
        rows_copied(src, dst, src_pitch, dst_pitch, width, rows).len() == dst.len(),
        rows_copied(src, dst, src_pitch, dst_pitch, width, rows)[y * dst_pitch + x] == (if x < width
            && y < rows {
            src[y * src_pitch + x]
        } else {
            dst[y * dst_pitch + x]
        }),
{
    let i = y * dst_pitch + x;
    assert(0 <= y * dst_pitch) by (nonlinear_arith)
        requires
            0 <= y,
            0 < dst_pitch,
    ;
    assert((y + 1) * dst_pitch == y * dst_pitch + dst_pitch) by (nonlinear_arith);
    lemma_row_of(i, dst_pitch, y);
}

/// The older states and effects, and where the fields of the capabilities stand.
pub proof fn lemma_d3d8_codes()
    ensures
        D3DSWAPEFFECT_COPY_VSYNC8 == 4,
        CAPS9_WORDS == 76,
        CAPS8_WORDS == 53,
        CAPS_ADAPTER_ORDINAL == 1,
        CAPS_PRESENTATION_INTERVALS == 5,
        CAPS_MAX_TEXTURE_WIDTH == 22,
        CAPS_TEXTURE_OP_CAPS == 36,
        CAPS_MAX_SIMULTANEOUS_TEXTURES == 38,
        CAPS_MAX_PIXEL_SHADER_VALUE == 52,
        D3DRS8_LINEPATTERN == 10,
        D3DRS8_ZVISIBLE == 30,
        D3DRS8_EDGEANTIALIAS == 40,
        D3DRS8_ZBIAS == 47,
        D3DRS8_SOFTWAREVERTEXPROCESSING == 153,
        D3DRS8_PATCHSEGMENTS == 164,
        D3DBACKBUFFER_TYPE_MONO == 0,
{
}

} // verus!
