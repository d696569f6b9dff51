//! The plain-value side of Direct3D: result codes, formats, and the structures
//! that the rewriting logic reads and fills.

use vstd::prelude::*;

verus! {

/// A COM result code; negative codes are failures.
pub type HResult = i32;

/// A `D3DFORMAT` code.
pub type Format = u32;

pub const D3D_OK: HResult = 0;

/// `0x8876_086c`.
pub const D3DERR_INVALIDCALL: HResult = -2005530516;

/// `0x8876_086a`.
pub const D3DERR_NOTAVAILABLE: HResult = -2005530518;

/// `0x8876_0868`.
pub const D3DERR_DEVICELOST: HResult = -2005530520;

/// `0x8876_0870`.
pub const D3DERR_DEVICEREMOVED: HResult = -2005530512;

/// `0x8876_0874`.
pub const D3DERR_DEVICEHUNG: HResult = -2005530508;

/// `0x8876_017c`.
pub const D3DERR_OUTOFVIDEOMEMORY: HResult = -2005532292;

/// `0x8000_4002`.
pub const E_NOINTERFACE: HResult = -2147467262;

pub const S_FALSE: HResult = 1;

pub const D3DFMT_UNKNOWN: Format = 0;

pub const D3DFMT_R8G8B8: Format = 20;

pub const D3DFMT_A8R8G8B8: Format = 21;

pub const D3DFMT_X8R8G8B8: Format = 22;

pub const D3DFMT_R5G6B5: Format = 23;

pub const D3DFMT_X1R5G5B5: Format = 24;

pub const D3DFMT_A1R5G5B5: Format = 25;

pub const D3DFMT_A4R4G4B4: Format = 26;

pub const D3DFMT_R3G3B2: Format = 27;

pub const D3DFMT_A8: Format = 28;

pub const D3DFMT_A8R3G3B2: Format = 29;

pub const D3DFMT_X4R4G4B4: Format = 30;

pub const D3DFMT_A2B10G10R10: Format = 31;

pub const D3DFMT_A8B8G8R8: Format = 32;

pub const D3DFMT_X8B8G8R8: Format = 33;

pub const D3DFMT_G16R16: Format = 34;

pub const D3DFMT_A2R10G10B10: Format = 35;

pub const D3DFMT_A16B16G16R16: Format = 36;

pub const D3DFMT_A8P8: Format = 40;

pub const D3DFMT_P8: Format = 41;

pub const D3DFMT_L8: Format = 50;

pub const D3DFMT_A8L8: Format = 51;

pub const D3DFMT_A4L4: Format = 52;

pub const D3DFMT_D16_LOCKABLE: Format = 70;

pub const D3DFMT_D32: Format = 71;

pub const D3DFMT_D15S1: Format = 73;

pub const D3DFMT_D24S8: Format = 75;

pub const D3DFMT_D24X8: Format = 77;

pub const D3DFMT_D24X4S4: Format = 79;

pub const D3DFMT_D16: Format = 80;

pub const D3DFMT_D32F_LOCKABLE: Format = 82;

pub const D3DFMT_D24FS8: Format = 83;

/// The four characters `DXT1`.
pub const D3DFMT_DXT1: Format = 827611204;

pub const D3DPOOL_DEFAULT: u32 = 0;

pub const D3DPOOL_MANAGED: u32 = 1;

pub const D3DPOOL_SYSTEMMEM: u32 = 2;

pub const D3DPOOL_SCRATCH: u32 = 3;

pub const D3DUSAGE_WRITEONLY: u32 = 8;

pub const D3DUSAGE_DYNAMIC: u32 = 512;

pub const D3DCREATE_MULTITHREADED: u32 = 4;

pub const D3DPRESENTFLAG_LOCKABLE_BACKBUFFER: u32 = 1;

pub const D3DPRESENTFLAG_DISCARD_DEPTHSTENCIL: u32 = 2;

pub const D3DPRESENT_INTERVAL_ONE: u32 = 1;

pub const D3DPRESENT_INTERVAL_IMMEDIATE: u32 = 0x8000_0000;

pub const D3DSCANLINEORDERING_PROGRESSIVE: i32 = 1;

pub const D3DSWAPEFFECT_DISCARD: i32 = 1;

pub const D3DSWAPEFFECT_FLIP: i32 = 2;

pub const D3DSWAPEFFECT_COPY: i32 = 3;

pub const D3DMULTISAMPLE_NONE: i32 = 0;

/// The byte size of a `D3DDISPLAYMODEEX`.
pub const D3DDISPLAYMODEEX_SIZE: u32 = 24;

/// Whether `hr` reports success.
pub open spec fn succeeded(hr: HResult) -> bool {
    hr >= 0
}

/// Returns whether `hr` reports success.
pub fn is_ok(hr: HResult) -> (res: bool)
    ensures
        res == succeeded(hr),
{
    hr >= 0
}

/// What a device is created or reset with (`D3DPRESENT_PARAMETERS`).
#[derive(Clone, Copy, Debug, PartialEq, Eq, Structural)]
pub struct PresentParameters {
    pub back_buffer_width: u32,
    pub back_buffer_height: u32,
    pub back_buffer_format: Format,
    pub back_buffer_count: u32,
    pub multi_sample_type: i32,
    pub multi_sample_quality: u32,
    pub swap_effect: i32,
    pub device_window: usize,
    /// Zero requests exclusive fullscreen.
    pub windowed: i32,
    pub enable_auto_depth_stencil: i32,
    pub auto_depth_stencil_format: Format,
    pub flags: u32,
    pub refresh_rate: u32,
    pub presentation_interval: u32,
}

impl PresentParameters {
    /// Parameters whose every field is zero.
    pub open spec fn zeroed() -> PresentParameters {
        PresentParameters {
            back_buffer_width: 0,
            back_buffer_height: 0,
            back_buffer_format: D3DFMT_UNKNOWN,
            back_buffer_count: 0,
            multi_sample_type: 0,
            multi_sample_quality: 0,
            swap_effect: 0,
            device_window: 0,
            windowed: 0,
            enable_auto_depth_stencil: 0,
            auto_depth_stencil_format: D3DFMT_UNKNOWN,
            flags: 0,
            refresh_rate: 0,
            presentation_interval: 0,
        }
    }
}

impl Default for PresentParameters {
    fn default() -> (pp: PresentParameters)
        ensures
            pp == PresentParameters::zeroed(),
    {
        PresentParameters {
            back_buffer_width: 0,
            back_buffer_height: 0,
            back_buffer_format: D3DFMT_UNKNOWN,
            back_buffer_count: 0,
            multi_sample_type: 0,
            multi_sample_quality: 0,
            swap_effect: 0,
            device_window: 0,
            windowed: 0,
            enable_auto_depth_stencil: 0,
            auto_depth_stencil_format: D3DFMT_UNKNOWN,
            flags: 0,
            refresh_rate: 0,
            presentation_interval: 0,
        }
    }
}

/// A display mode of an adapter (`D3DDISPLAYMODEEX`).
#[derive(Clone, Copy, Debug, PartialEq, Eq, Structural)]
pub struct DisplayModeEx {
    pub size: u32,
    pub width: u32,
    pub height: u32,
    pub refresh_rate: u32,
    pub format: Format,
    pub scan_line_ordering: i32,
}

/// A result code is a failure exactly when its top bit is set, as in every error code that
/// is told apart here.
pub proof fn lemma_succeeded(hr: HResult)
    ensures
        succeeded(hr) <==> !(hr < 0),
        !succeeded(D3DERR_INVALIDCALL) && !succeeded(D3DERR_NOTAVAILABLE) && !succeeded(
            D3DERR_DEVICELOST,
        ) && !succeeded(D3DERR_DEVICEREMOVED) && !succeeded(D3DERR_DEVICEHUNG) && !succeeded(
            D3DERR_OUTOFVIDEOMEMORY,
        ) && !succeeded(E_NOINTERFACE),
        succeeded(D3D_OK) && succeeded(S_FALSE),
{
}

/// The codes are those of the Direct3D headers.
pub proof fn lemma_direct3d_codes()
    ensures
        D3DERR_INVALIDCALL == 0x8876_086c - 0x1_0000_0000,
        D3DERR_NOTAVAILABLE == 0x8876_086a - 0x1_0000_0000,
        D3DERR_DEVICELOST == 0x8876_0868 - 0x1_0000_0000,
        D3DERR_DEVICEREMOVED == 0x8876_0870 - 0x1_0000_0000,
        D3DERR_DEVICEHUNG == 0x8876_0874 - 0x1_0000_0000,
        D3DERR_OUTOFVIDEOMEMORY == 0x8876_017c - 0x1_0000_0000,
        E_NOINTERFACE == 0x8000_4002 - 0x1_0000_0000,
        D3D_OK == 0 && S_FALSE == 1,
        D3DFMT_UNKNOWN == 0 && D3DFMT_R8G8B8 == 20 && D3DFMT_A8R8G8B8 == 21 && D3DFMT_X8R8G8B8
            == 22,
        D3DFMT_R5G6B5 == 23 && D3DFMT_X1R5G5B5 == 24 && D3DFMT_A1R5G5B5 == 25 && D3DFMT_A4R4G4B4
            == 26,
        D3DPOOL_DEFAULT == 0 && D3DPOOL_MANAGED == 1 && D3DPOOL_SYSTEMMEM == 2 && D3DPOOL_SCRATCH
            == 3,
        D3DUSAGE_DYNAMIC == 0x200 && D3DUSAGE_WRITEONLY == 8,
        D3DCREATE_MULTITHREADED == 4,
        D3DPRESENTFLAG_LOCKABLE_BACKBUFFER == 1 && D3DPRESENTFLAG_DISCARD_DEPTHSTENCIL == 2,
        D3DPRESENT_INTERVAL_ONE == 1 && D3DPRESENT_INTERVAL_IMMEDIATE == 0x8000_0000,
        D3DSWAPEFFECT_DISCARD == 1 && D3DSWAPEFFECT_FLIP == 2 && D3DSWAPEFFECT_COPY == 3,
        D3DSCANLINEORDERING_PROGRESSIVE == 1,
        D3DMULTISAMPLE_NONE == 0,
        D3DDISPLAYMODEEX_SIZE == 6 * 4,
{
}

/// Nothing is asked for by zeroed parameters.
pub proof fn lemma_zeroed()
    ensures
        ({
            let pp = PresentParameters::zeroed();
            &&& pp.back_buffer_width == 0 && pp.back_buffer_height == 0
            &&& pp.back_buffer_format == 0 && pp.back_buffer_count == 0
            &&& pp.multi_sample_type == 0 && pp.multi_sample_quality == 0
            &&& pp.swap_effect == 0 && pp.device_window == 0 && pp.windowed == 0
            &&& pp.enable_auto_depth_stencil == 0 && pp.auto_depth_stencil_format == 0
            &&& pp.flags == 0 && pp.refresh_rate == 0 && pp.presentation_interval == 0
        }),
{
}

/// The codes of the formats and pools.
pub proof fn lemma_format_codes()
    ensures
        D3DFMT_X8R8G8B8 == 22,
        D3DFMT_A4R4G4B4 == 26,
        D3DFMT_R3G3B2 == 27,
        D3DFMT_A8 == 28,
        D3DFMT_A8R3G3B2 == 29,
        D3DFMT_X4R4G4B4 == 30,
        D3DFMT_A2B10G10R10 == 31,
        D3DFMT_A8B8G8R8 == 32,
        D3DFMT_X8B8G8R8 == 33,
        D3DFMT_G16R16 == 34,
        D3DFMT_A2R10G10B10 == 35,
        D3DFMT_A16B16G16R16 == 36,
        D3DFMT_A8P8 == 40,
        D3DFMT_P8 == 41,
        D3DFMT_L8 == 50,
        D3DFMT_A8L8 == 51,
        D3DFMT_A4L4 == 52,
        D3DFMT_D16_LOCKABLE == 70,
        D3DFMT_D32 == 71,
        D3DFMT_D15S1 == 73,
        D3DFMT_D24S8 == 75,
        D3DFMT_D24X8 == 77,
        D3DFMT_D24X4S4 == 79,
        D3DFMT_D16 == 80,
        D3DFMT_D32F_LOCKABLE == 82,
        D3DFMT_D24FS8 == 83,
        D3DFMT_DXT1 == 827611204,
        D3DPOOL_SCRATCH == 3,
{
}

} // verus!
