//! Which slots of the Direct3D 9 vtables are read and which are patched, and the
//! rewriting of call sites that would bypass the import table.

use vstd::prelude::*;
use crate::d3d::{
    Format, D3DFMT_A16B16G16R16, D3DFMT_A1R5G5B5, D3DFMT_A2B10G10R10, D3DFMT_A2R10G10B10,
    D3DFMT_A4R4G4B4, D3DFMT_A8, D3DFMT_A8B8G8R8, D3DFMT_A8R3G3B2, D3DFMT_A8R8G8B8, D3DFMT_D15S1,
    D3DFMT_D16, D3DFMT_D16_LOCKABLE, D3DFMT_D24FS8, D3DFMT_D24S8, D3DFMT_D24X4S4, D3DFMT_D24X8,
    D3DFMT_D32, D3DFMT_D32F_LOCKABLE, D3DFMT_G16R16, D3DFMT_R3G3B2, D3DFMT_R5G6B5, D3DFMT_R8G8B8,
    D3DFMT_UNKNOWN, D3DFMT_X1R5G5B5, D3DFMT_X4R4G4B4, D3DFMT_X8B8G8R8, D3DFMT_X8R8G8B8,
};
use crate::patches::{PatchSite, MAX_PATCH_LEN, OPCODE_CALL, REL32_LEN};
use crate::vtable::{FnSlot, VtblScope};
use crate::{patches, vtable};

verus! {

/// The number of slots of `IDirect3D9Ex`.
pub const D3D9EX_SLOTS: usize = 22;

pub const SLOT_CHECK_DEVICE_FORMAT: usize = 10;

pub const SLOT_GET_ADAPTER_MONITOR: usize = 15;

pub const SLOT_CREATE_DEVICE: usize = 16;

pub const SLOT_GET_ADAPTER_MODE_COUNT_EX: usize = 17;

pub const SLOT_ENUM_ADAPTER_MODES_EX: usize = 18;

pub const SLOT_GET_ADAPTER_DISPLAY_MODE_EX: usize = 19;

pub const SLOT_CREATE_DEVICE_EX: usize = 20;

/// The number of slots of `IDirect3DDevice9Ex`.
pub const DEVICE9EX_SLOTS: usize = 134;

pub const SLOT_RESET: usize = 16;

pub const SLOT_PRESENT: usize = 17;

pub const SLOT_CREATE_TEXTURE: usize = 23;

pub const SLOT_CREATE_VERTEX_BUFFER: usize = 26;

pub const SLOT_SET_GPU_THREAD_PRIORITY: usize = 123;

pub const SLOT_SET_MAXIMUM_FRAME_LATENCY: usize = 126;

pub const SLOT_RESET_EX: usize = 132;

/// The originals behind an `IDirect3D9Ex`.
pub struct D3d9Slots {
    pub create_device_ex: FnSlot<u32>,
    pub get_adapter_display_mode_ex: FnSlot<u32>,
    pub get_adapter_mode_count_ex: FnSlot<u32>,
    pub enum_adapter_modes_ex: FnSlot<u32>,
    pub get_adapter_monitor: FnSlot<u32>,
    pub create_device: FnSlot<u32>,
    pub check_device_format: FnSlot<u32>,
}

/// The hooks on an `IDirect3D9Ex`.
#[derive(Clone, Copy, Debug)]
pub struct D3d9Hooks {
    pub create_device: u32,
    pub check_device_format: u32,
}

/// The originals behind an `IDirect3DDevice9Ex`.
pub struct DeviceSlots {
    pub reset_ex: FnSlot<u32>,
    pub set_max_frame_latency: FnSlot<u32>,
    pub set_gpu_thread_priority: FnSlot<u32>,
    pub reset: FnSlot<u32>,
    pub present: FnSlot<u32>,
    pub create_texture: FnSlot<u32>,
    pub create_vertex_buffer: FnSlot<u32>,
}

/// The hooks on an `IDirect3DDevice9Ex`.
#[derive(Clone, Copy, Debug)]
pub struct DeviceHooks {
    pub reset: u32,
    pub present: u32,
    pub create_texture: u32,
    pub create_vertex_buffer: u32,
}

impl D3d9Slots {
    /// The names of the slots, in the order of the fields.
    pub open spec fn labels(self) -> Seq<Seq<char>> {
        seq![
            self.create_device_ex.label(),
            self.get_adapter_display_mode_ex.label(),
            self.get_adapter_mode_count_ex.label(),
            self.enum_adapter_modes_ex.label(),
            self.get_adapter_monitor.label(),
            self.create_device.label(),
            self.check_device_format.label(),
        ]
    }

    /// No slot is captured.
    pub fn new() -> (slots: D3d9Slots)
        ensures
            slots.create_device_ex@ is None,
            slots.get_adapter_display_mode_ex@ is None,
            slots.get_adapter_mode_count_ex@ is None,
            slots.enum_adapter_modes_ex@ is None,
            slots.get_adapter_monitor@ is None,
            slots.create_device@ is None,
            slots.check_device_format@ is None,
            slots.labels() == seq![
                "REAL_CREATE_DEVICE_EX"@,
                "REAL_GET_ADAPTER_DISPLAY_MODE_EX"@,
                "REAL_GET_ADAPTER_MODE_COUNT_EX"@,
                "REAL_ENUM_ADAPTER_MODES_EX"@,
                "REAL_GET_ADAPTER_MONITOR"@,
                "REAL_CREATE_DEVICE"@,
                "REAL_CHECK_DEVICE_FORMAT"@,
            ],
    {
        D3d9Slots {
            create_device_ex: FnSlot::new("REAL_CREATE_DEVICE_EX"),
            get_adapter_display_mode_ex: FnSlot::new("REAL_GET_ADAPTER_DISPLAY_MODE_EX"),
            get_adapter_mode_count_ex: FnSlot::new("REAL_GET_ADAPTER_MODE_COUNT_EX"),
            enum_adapter_modes_ex: FnSlot::new("REAL_ENUM_ADAPTER_MODES_EX"),
            get_adapter_monitor: FnSlot::new("REAL_GET_ADAPTER_MONITOR"),
            create_device: FnSlot::new("REAL_CREATE_DEVICE"),
            check_device_format: FnSlot::new("REAL_CHECK_DEVICE_FORMAT"),
        }
    }
}

impl DeviceSlots {
    /// The names of the slots, in the order of the fields.
    pub open spec fn labels(self) -> Seq<Seq<char>> {
        seq![
            self.reset_ex.label(),
            self.set_max_frame_latency.label(),
            self.set_gpu_thread_priority.label(),
            self.reset.label(),
            self.present.label(),
            self.create_texture.label(),
            self.create_vertex_buffer.label(),
        ]
    }

    /// No slot is captured.
    pub fn new() -> (slots: DeviceSlots)
        ensures
            slots.reset_ex@ is None,
            slots.set_max_frame_latency@ is None,
            slots.set_gpu_thread_priority@ is None,
            slots.reset@ is None,
            slots.present@ is None,
            slots.create_texture@ is None,
            slots.create_vertex_buffer@ is None,
            slots.labels() == seq![
                "REAL_RESET_EX"@,
                "REAL_SET_MAX_FRAME_LATENCY"@,
                "REAL_SET_GPU_THREAD_PRIORITY"@,
                "REAL_RESET"@,
                "REAL_PRESENT"@,
                "REAL_CREATE_TEXTURE"@,
                "REAL_CREATE_VERTEX_BUFFER"@,
            ],
    {
        DeviceSlots {
            reset_ex: FnSlot::new("REAL_RESET_EX"),
            set_max_frame_latency: FnSlot::new("REAL_SET_MAX_FRAME_LATENCY"),
            set_gpu_thread_priority: FnSlot::new("REAL_SET_GPU_THREAD_PRIORITY"),
            reset: FnSlot::new("REAL_RESET"),
            present: FnSlot::new("REAL_PRESENT"),
            create_texture: FnSlot::new("REAL_CREATE_TEXTURE"),
            create_vertex_buffer: FnSlot::new("REAL_CREATE_VERTEX_BUFFER"),
        }
    }
}

/// Captures the slots of an `IDirect3D9Ex` that are called through.
pub fn capture_d3d9_slots(scope: &VtblScope, vtbl: &Vec<u32>, slots: &mut D3d9Slots)
    requires
        vtbl@.len() == D3D9EX_SLOTS,
    ensures
        final(slots).labels() == old(slots).labels(),
        final(slots).create_device_ex@ == vtable::after_capture(
            old(slots).create_device_ex@,
            vtbl@[20],
        ),
        final(slots).get_adapter_display_mode_ex@ == vtable::after_capture(
            old(slots).get_adapter_display_mode_ex@,
            vtbl@[19],
        ),
        final(slots).get_adapter_mode_count_ex@ == vtable::after_capture(
            old(slots).get_adapter_mode_count_ex@,
            vtbl@[17],
        ),
        final(slots).enum_adapter_modes_ex@ == vtable::after_capture(
            old(slots).enum_adapter_modes_ex@,
            vtbl@[18],
        ),
        final(slots).get_adapter_monitor@ == vtable::after_capture(
            old(slots).get_adapter_monitor@,
            vtbl@[15],
        ),
        final(slots).create_device@ == old(slots).create_device@,
        final(slots).check_device_format@ == old(slots).check_device_format@,
{
    scope.capture(vtbl, SLOT_CREATE_DEVICE_EX, &mut slots.create_device_ex);
    scope.capture(vtbl, SLOT_GET_ADAPTER_DISPLAY_MODE_EX, &mut slots.get_adapter_display_mode_ex);
    scope.capture(vtbl, SLOT_GET_ADAPTER_MODE_COUNT_EX, &mut slots.get_adapter_mode_count_ex);
    scope.capture(vtbl, SLOT_ENUM_ADAPTER_MODES_EX, &mut slots.enum_adapter_modes_ex);
    scope.capture(vtbl, SLOT_GET_ADAPTER_MONITOR, &mut slots.get_adapter_monitor);
}

/// Captures the slots of an `IDirect3D9Ex` that are called through, and, if the vtable
/// can be made writable, patches the two that are hooked. The game's creations go to
/// `CreateDeviceEx`; the displaced `CreateDevice` serves foreign objects only.
pub fn install_d3d9_hooks(
    scope: &VtblScope,
    vtbl: &mut Vec<u32>,
    writable: bool,
    slots: &mut D3d9Slots,
    hooks: D3d9Hooks,
)
    requires
        old(vtbl)@.len() == D3D9EX_SLOTS,
    ensures
        final(slots).labels() == old(slots).labels(),
        final(slots).create_device_ex@ == vtable::after_capture(
            old(slots).create_device_ex@,
            old(vtbl)@[20],
        ),
        final(slots).get_adapter_display_mode_ex@ == vtable::after_capture(
            old(slots).get_adapter_display_mode_ex@,
            old(vtbl)@[19],
        ),
        final(slots).get_adapter_mode_count_ex@ == vtable::after_capture(
            old(slots).get_adapter_mode_count_ex@,
            old(vtbl)@[17],
        ),
        final(slots).enum_adapter_modes_ex@ == vtable::after_capture(
            old(slots).enum_adapter_modes_ex@,
            old(vtbl)@[18],
        ),
        final(slots).get_adapter_monitor@ == vtable::after_capture(
            old(slots).get_adapter_monitor@,
            old(vtbl)@[15],
        ),
        !writable ==> final(vtbl)@ == old(vtbl)@ && final(slots).create_device@ == old(
            slots,
        ).create_device@ && final(slots).check_device_format@ == old(slots).check_device_format@,
        writable ==> {
            &&& final(vtbl)@ == old(vtbl)@.update(
                16,
                scope.slot_after(old(vtbl)@[16], hooks.create_device),
            ).update(10, scope.slot_after(old(vtbl)@[10], hooks.check_device_format))
            &&& final(slots).create_device@ == scope.after_intercept(
                old(slots).create_device@,
                old(vtbl)@[16],
            )
            &&& final(slots).check_device_format@ == scope.after_intercept(
                old(slots).check_device_format@,
                old(vtbl)@[10],
            )
        },
{
    capture_d3d9_slots(scope, vtbl, slots);
    if writable {
        scope.intercept(vtbl, SLOT_CREATE_DEVICE, &mut slots.create_device, hooks.create_device);
        scope.intercept(
            vtbl,
            SLOT_CHECK_DEVICE_FORMAT,
            &mut slots.check_device_format,
            hooks.check_device_format,
        );
    }
}

/// Captures the slots of an `IDirect3DDevice9Ex` that are called through, and, if the
/// vtable can be made writable, patches the four that are hooked.
pub fn install_device_hooks(
    scope: &VtblScope,
    vtbl: &mut Vec<u32>,
    writable: bool,
    slots: &mut DeviceSlots,
    hooks: DeviceHooks,
)
    requires
        old(vtbl)@.len() == DEVICE9EX_SLOTS,
    ensures
        final(slots).labels() == old(slots).labels(),
        final(slots).reset_ex@ == vtable::after_capture(old(slots).reset_ex@, old(vtbl)@[132]),
        final(slots).set_max_frame_latency@ == vtable::after_capture(
            old(slots).set_max_frame_latency@,
            old(vtbl)@[126],
        ),
        final(slots).set_gpu_thread_priority@ == vtable::after_capture(
            old(slots).set_gpu_thread_priority@,
            old(vtbl)@[123],
        ),
        !writable ==> {
            &&& final(vtbl)@ == old(vtbl)@
            &&& final(slots).reset@ == old(slots).reset@
            &&& final(slots).present@ == old(slots).present@
            &&& final(slots).create_texture@ == old(slots).create_texture@
            &&& final(slots).create_vertex_buffer@ == old(slots).create_vertex_buffer@
        },
        writable ==> {
            &&& final(vtbl)@ == old(vtbl)@.update(
                16,
                scope.slot_after(old(vtbl)@[16], hooks.reset),
            ).update(17, scope.slot_after(old(vtbl)@[17], hooks.present)).update(
                23,
                scope.slot_after(old(vtbl)@[23], hooks.create_texture),
            ).update(26, scope.slot_after(old(vtbl)@[26], hooks.create_vertex_buffer))
            &&& final(slots).reset@ == scope.after_intercept(old(slots).reset@, old(vtbl)@[16])
            &&& final(slots).present@ == scope.after_intercept(old(slots).present@, old(vtbl)@[17])
            &&& final(slots).create_texture@ == scope.after_intercept(
                old(slots).create_texture@,
                old(vtbl)@[23],
            )
            &&& final(slots).create_vertex_buffer@ == scope.after_intercept(
                old(slots).create_vertex_buffer@,
                old(vtbl)@[26],
            )
        },
{
    scope.capture(vtbl, SLOT_RESET_EX, &mut slots.reset_ex);
    scope.capture(vtbl, SLOT_SET_MAXIMUM_FRAME_LATENCY, &mut slots.set_max_frame_latency);
    scope.capture(vtbl, SLOT_SET_GPU_THREAD_PRIORITY, &mut slots.set_gpu_thread_priority);
    if writable {
        scope.intercept(vtbl, SLOT_RESET, &mut slots.reset, hooks.reset);
        scope.intercept(vtbl, SLOT_PRESENT, &mut slots.present, hooks.present);
        scope.intercept(vtbl, SLOT_CREATE_TEXTURE, &mut slots.create_texture, hooks.create_texture);
        scope.intercept(
            vtbl,
            SLOT_CREATE_VERTEX_BUFFER,
            &mut slots.create_vertex_buffer,
            hooks.create_vertex_buffer,
        );
    }
}

/// Installing a second time on a vtable that holds our hooks changes neither the vtable
/// nor any original.
pub proof fn lemma_device_hooks_idempotent(
    scope: VtblScope,
    kept: Option<u32>,
    value: u32,
    hook: u32,
)
    requires
        scope.ours(hook),
    ensures
        scope.slot_after(scope.slot_after(value, hook), hook) == scope.slot_after(value, hook),
        scope.after_intercept(
            scope.after_intercept(kept, value),
            scope.slot_after(value, hook),
        ) == scope.after_intercept(kept, value),
{
}

/// Returns a patch that rewrites a `Direct3DCreate9` call site to a 5-byte direct call
/// to `hook`. Accepts both 5-byte direct-call sites and 6-byte indirect-call sites; the
/// latter get a trailing NOP. This bypasses any downstream import hook.
pub fn call_site_rewrite<const N: usize>(addr: u32, expected: &[u8; N], hook: u32) -> (site:
    PatchSite)
    requires
        REL32_LEN <= N <= MAX_PATCH_LEN,
    ensures
        site.wf(),
        site.addr() == addr,
        site.expected() == expected@,
        site.replacement() == patches::branch_bytes(OPCODE_CALL, addr, hook, N as int),
        site.branch_to() == Some((OPCODE_CALL, hook)),
        site.label() == "Direct3DCreate9 call-site rewrite"@,
{
    PatchSite::call(addr, expected, hook, "Direct3DCreate9 call-site rewrite")
}

/// The name of a format.
pub open spec fn format_label(f: Format) -> Seq<char> {
    match f {
        0 => "D3DFMT_UNKNOWN"@,
        20 => "D3DFMT_R8G8B8"@,
        21 => "D3DFMT_A8R8G8B8"@,
        22 => "D3DFMT_X8R8G8B8"@,
        23 => "D3DFMT_R5G6B5"@,
        24 => "D3DFMT_X1R5G5B5"@,
        25 => "D3DFMT_A1R5G5B5"@,
        26 => "D3DFMT_A4R4G4B4"@,
        27 => "D3DFMT_R3G3B2"@,
        28 => "D3DFMT_A8"@,
        29 => "D3DFMT_A8R3G3B2"@,
        30 => "D3DFMT_X4R4G4B4"@,
        31 => "D3DFMT_A2B10G10R10"@,
        32 => "D3DFMT_A8B8G8R8"@,
        33 => "D3DFMT_X8B8G8R8"@,
        34 => "D3DFMT_G16R16"@,
        35 => "D3DFMT_A2R10G10B10"@,
        36 => "D3DFMT_A16B16G16R16"@,
        70 => "D3DFMT_D16_LOCKABLE"@,
        71 => "D3DFMT_D32"@,
        73 => "D3DFMT_D15S1"@,
        75 => "D3DFMT_D24S8"@,
        77 => "D3DFMT_D24X8"@,
        79 => "D3DFMT_D24X4S4"@,
        80 => "D3DFMT_D16"@,
        82 => "D3DFMT_D32F_LOCKABLE"@,
        83 => "D3DFMT_D24FS8"@,
        _ => "?"@,
    }
}

/// Names a format, `?` standing for an unknown one.
pub fn format_name(f: Format) -> (name: &'static str)
    ensures
        name@ == format_label(f),
{
    match f {
        D3DFMT_UNKNOWN => "D3DFMT_UNKNOWN",
        D3DFMT_R8G8B8 => "D3DFMT_R8G8B8",
        D3DFMT_A8R8G8B8 => "D3DFMT_A8R8G8B8",
        D3DFMT_X8R8G8B8 => "D3DFMT_X8R8G8B8",
        D3DFMT_R5G6B5 => "D3DFMT_R5G6B5",
        D3DFMT_X1R5G5B5 => "D3DFMT_X1R5G5B5",
        D3DFMT_A1R5G5B5 => "D3DFMT_A1R5G5B5",
        D3DFMT_A4R4G4B4 => "D3DFMT_A4R4G4B4",
        D3DFMT_R3G3B2 => "D3DFMT_R3G3B2",
        D3DFMT_A8 => "D3DFMT_A8",
        D3DFMT_A8R3G3B2 => "D3DFMT_A8R3G3B2",
        D3DFMT_X4R4G4B4 => "D3DFMT_X4R4G4B4",
        D3DFMT_A2B10G10R10 => "D3DFMT_A2B10G10R10",
        D3DFMT_A8B8G8R8 => "D3DFMT_A8B8G8R8",
        D3DFMT_X8B8G8R8 => "D3DFMT_X8B8G8R8",
        D3DFMT_G16R16 => "D3DFMT_G16R16",
        D3DFMT_A2R10G10B10 => "D3DFMT_A2R10G10B10",
        D3DFMT_A16B16G16R16 => "D3DFMT_A16B16G16R16",
        D3DFMT_D16_LOCKABLE => "D3DFMT_D16_LOCKABLE",
        D3DFMT_D32 => "D3DFMT_D32",
        D3DFMT_D15S1 => "D3DFMT_D15S1",
        D3DFMT_D24S8 => "D3DFMT_D24S8",
        D3DFMT_D24X8 => "D3DFMT_D24X8",
        D3DFMT_D24X4S4 => "D3DFMT_D24X4S4",
        D3DFMT_D16 => "D3DFMT_D16",
        D3DFMT_D32F_LOCKABLE => "D3DFMT_D32F_LOCKABLE",
        D3DFMT_D24FS8 => "D3DFMT_D24FS8",
        _ => "?",
    }
}

/// Each format has the name it is declared under, and what is not declared has none.
pub proof fn lemma_format_names(f: Format)
    ensures
        f == 0 ==> format_label(f) == "D3DFMT_UNKNOWN"@,
        f == 20 ==> format_label(f) == "D3DFMT_R8G8B8"@,
        f == 21 ==> format_label(f) == "D3DFMT_A8R8G8B8"@,
        f == 22 ==> format_label(f) == "D3DFMT_X8R8G8B8"@,
        f == 23 ==> format_label(f) == "D3DFMT_R5G6B5"@,
        f == 24 ==> format_label(f) == "D3DFMT_X1R5G5B5"@,
        f == 25 ==> format_label(f) == "D3DFMT_A1R5G5B5"@,
        f == 26 ==> format_label(f) == "D3DFMT_A4R4G4B4"@,
        f == 27 ==> format_label(f) == "D3DFMT_R3G3B2"@,
        f == 28 ==> format_label(f) == "D3DFMT_A8"@,
        f == 29 ==> format_label(f) == "D3DFMT_A8R3G3B2"@,
        f == 30 ==> format_label(f) == "D3DFMT_X4R4G4B4"@,
        f == 31 ==> format_label(f) == "D3DFMT_A2B10G10R10"@,
        f == 32 ==> format_label(f) == "D3DFMT_A8B8G8R8"@,
        f == 33 ==> format_label(f) == "D3DFMT_X8B8G8R8"@,
        f == 34 ==> format_label(f) == "D3DFMT_G16R16"@,
        f == 35 ==> format_label(f) == "D3DFMT_A2R10G10B10"@,
        f == 36 ==> format_label(f) == "D3DFMT_A16B16G16R16"@,
        f == 70 ==> format_label(f) == "D3DFMT_D16_LOCKABLE"@,
        f == 71 ==> format_label(f) == "D3DFMT_D32"@,
        f == 73 ==> format_label(f) == "D3DFMT_D15S1"@,
        f == 75 ==> format_label(f) == "D3DFMT_D24S8"@,
        f == 77 ==> format_label(f) == "D3DFMT_D24X8"@,
        f == 79 ==> format_label(f) == "D3DFMT_D24X4S4"@,
        f == 80 ==> format_label(f) == "D3DFMT_D16"@,
        f == 82 ==> format_label(f) == "D3DFMT_D32F_LOCKABLE"@,
        f == 83 ==> format_label(f) == "D3DFMT_D24FS8"@,
        f != 0 && !(20 <= f <= 36) && !(70 <= f <= 71) && f != 73 && f != 75 && f != 77 && f != 79 && f != 80
            && !(82 <= f <= 83) ==> format_label(f) == "?"@,
{
}

/// The slots of the two vtables.
pub proof fn lemma_slots()
    ensures
        D3D9EX_SLOTS == 22,
        SLOT_CHECK_DEVICE_FORMAT == 10,
        SLOT_GET_ADAPTER_MONITOR == 15,
        SLOT_CREATE_DEVICE == 16,
        SLOT_GET_ADAPTER_MODE_COUNT_EX == 17,
        SLOT_ENUM_ADAPTER_MODES_EX == 18,
        SLOT_GET_ADAPTER_DISPLAY_MODE_EX == 19,
        SLOT_CREATE_DEVICE_EX == 20,
        DEVICE9EX_SLOTS == 134,
        SLOT_RESET == 16,
        SLOT_PRESENT == 17,
        SLOT_CREATE_TEXTURE == 23,
        SLOT_CREATE_VERTEX_BUFFER == 26,
        SLOT_SET_GPU_THREAD_PRIORITY == 123,
        SLOT_SET_MAXIMUM_FRAME_LATENCY == 126,
        SLOT_RESET_EX == 132,
{
}

} // verus!
