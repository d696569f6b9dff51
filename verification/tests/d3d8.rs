//! The Direct3D 8 translation.

use neopatch_core::com8::{
    d3d8_release, device8_release, forward_to, forward_with_arg, get_owner, unwrap8, unwrap8_arg,
    wrap_created, ComHeader, Created, MethodKind, OutWrite, Owners, ReleaseOutcome, Resource8, D3D8_INTERNAL_LOCKABLE,
};
use neopatch_core::d3d::{
    HResult, PresentParameters, D3DERR_INVALIDCALL, D3DERR_OUTOFVIDEOMEMORY, D3DFMT_A1R5G5B5,
    D3DFMT_A8R8G8B8, D3DFMT_D16, D3DFMT_DXT1, D3DFMT_R5G6B5, D3DFMT_X1R5G5B5, D3DFMT_X8R8G8B8,
    D3DMULTISAMPLE_NONE, D3DPOOL_DEFAULT, D3DPOOL_SYSTEMMEM, D3DPRESENTFLAG_LOCKABLE_BACKBUFFER,
    D3DPRESENT_INTERVAL_ONE, D3DSWAPEFFECT_COPY, D3DSWAPEFFECT_DISCARD, D3DSWAPEFFECT_FLIP, D3D_OK,
    E_NOINTERFACE,
};
use neopatch_core::d3d8::{
    caps_9_to_8, choose_copy_call, convert_present_params, copy_rect_valid, copy_rows,
    create_device, dest_rect, plan_copy_rects, plan_locked_copy, set_pre_create_fn,
    set_render_state, set_texture_stage_state, shim_policy, surface_desc_9_to_8,
    sync_present_params_back, tss_to_sampler_state, BackBufferAnswer, CopyCall, Device8, Point,
    PresentParameters8, Rect, RenderStateCall, StageStateCall, SurfaceDesc9, CAPS8_WORDS,
    CAPS9_WORDS, CAPS_ADAPTER_ORDINAL, CAPS_MAX_PIXEL_SHADER_VALUE, CAPS_MAX_SIMULTANEOUS_TEXTURES,
    CAPS_MAX_TEXTURE_WIDTH, CAPS_PRESENTATION_INTERVALS, CAPS_TEXTURE_OP_CAPS,
    D3DBACKBUFFER_TYPE_MONO, D3DRS8_EDGEANTIALIAS, D3DRS8_LINEPATTERN, D3DRS8_PATCHSEGMENTS,
    D3DRS8_SOFTWAREVERTEXPROCESSING, D3DRS8_ZBIAS,
};
use neopatch_core::device8::{
    claim_opaque, claim_out, copy_locked, copy_operands, d3d8_create_device, device8_copy_rects,
    device8_get_device_caps, device8_reset, device8_update_texture, finish_reset,
    hook_direct3dcreate8, surface8_get_container, surface8_get_desc, texture8_get_level_desc,
    wrap_query_interface, CopyAnswers, CopyRequest, Creation, LockedBits, Refusal,
};
use neopatch_core::nonzero::NonZeroUsize;
use neopatch_core::vtable::FnSlot;

const D3DMULTISAMPLE_2_SAMPLES: i32 = 2;

fn base_pp8() -> PresentParameters8 {
    PresentParameters8 {
        back_buffer_width: 640,
        back_buffer_height: 480,
        back_buffer_format: D3DFMT_X8R8G8B8,
        back_buffer_count: 1,
        multi_sample_type: D3DMULTISAMPLE_NONE,
        swap_effect: D3DSWAPEFFECT_COPY as u32,
        device_window: 0,
        windowed: 1,
        enable_auto_depth_stencil: 1,
        auto_depth_stencil_format: D3DFMT_D16,
        flags: D3DPRESENTFLAG_LOCKABLE_BACKBUFFER,
        refresh_rate: 0,
        presentation_interval: 0,
    }
}

#[test]
fn convert_present_params_fields() {
    let mut pp8 = base_pp8();
    pp8.presentation_interval = D3DPRESENT_INTERVAL_ONE;
    let pp9 = convert_present_params(&pp8);
    assert_eq!(pp9.back_buffer_width, 640);
    assert_eq!(pp9.back_buffer_height, 480);
    assert_eq!(pp9.back_buffer_format, D3DFMT_X8R8G8B8);
    assert_eq!(pp9.back_buffer_count, 1);
    assert_eq!(pp9.multi_sample_quality, 0);
    assert_eq!(pp9.swap_effect, D3DSWAPEFFECT_COPY);
    assert_eq!(pp9.windowed, 1);
    assert_eq!(pp9.enable_auto_depth_stencil, 1);
    assert_eq!(pp9.auto_depth_stencil_format, D3DFMT_D16);
    assert_eq!(pp9.flags, D3DPRESENTFLAG_LOCKABLE_BACKBUFFER);
    assert_eq!(pp9.refresh_rate, 0);
    assert_eq!(pp9.presentation_interval, D3DPRESENT_INTERVAL_ONE);
}

#[test]
fn convert_present_params_swap_effects() {
    let mut pp8 = base_pp8();

    pp8.swap_effect = 4;
    assert_eq!(convert_present_params(&pp8).swap_effect, D3DSWAPEFFECT_COPY);

    // `FLIP` becomes `COPY` so the games can still read the back buffer after `Present`, which D3D9Ex leaves undefined under `FLIP`.
    pp8.swap_effect = D3DSWAPEFFECT_FLIP as u32;
    pp8.multi_sample_type = D3DMULTISAMPLE_NONE;
    assert_eq!(convert_present_params(&pp8).swap_effect, D3DSWAPEFFECT_COPY);

    // ...except with multisampling, where D3D9 accepts nothing but `DISCARD`.
    pp8.multi_sample_type = D3DMULTISAMPLE_2_SAMPLES;
    assert_eq!(
        convert_present_params(&pp8).swap_effect,
        D3DSWAPEFFECT_DISCARD,
    );
    pp8.multi_sample_type = D3DMULTISAMPLE_NONE;

    pp8.swap_effect = D3DSWAPEFFECT_DISCARD as u32;
    assert_eq!(
        convert_present_params(&pp8).swap_effect,
        D3DSWAPEFFECT_DISCARD,
    );
}

#[test]
fn convert_present_params_back_buffer_format() {
    for requested in [
        D3DFMT_R5G6B5,
        D3DFMT_X1R5G5B5,
        D3DFMT_A1R5G5B5,
        D3DFMT_X8R8G8B8,
        D3DFMT_A8R8G8B8,
    ] {
        let mut pp8 = base_pp8();
        pp8.back_buffer_format = requested;
        pp8.windowed = 0;
        assert_eq!(
            convert_present_params(&pp8).back_buffer_format,
            requested,
            "format {requested:?}"
        );
    }
}

fn nz(addr: usize) -> NonZeroUsize {
    NonZeroUsize::new(addr).unwrap()
}

fn no_owners() -> Owners {
    Owners {
        device: None,
        parent: None,
    }
}

/// How often `object` is among the references that are to be released.
fn count(released: &[NonZeroUsize], object: usize) -> usize {
    released.iter().filter(|r| r.get() == object).count()
}

#[test]
fn wrap_created_null_out_slot() {
    // (HRESULT the D3D9 call returned, HRESULT the game must see)
    for (returned, expected) in [
        (D3D_OK, D3DERR_INVALIDCALL),
        (D3DERR_OUTOFVIDEOMEMORY, D3DERR_OUTOFVIDEOMEMORY),
    ] {
        let created = wrap_created(returned, 0, &mut no_owners(), false);
        assert_eq!(created.hr, expected, "returned {returned:#x}");
        assert!(created.resource.is_none(), "returned {returned:#x}");
    }
}

#[test]
fn wrap_created_wrap_live_interface() {
    let inner = 0x1000;
    let mut owners = no_owners();
    let Created { hr, resource } = wrap_created(D3D_OK, inner, &mut owners, true);
    assert_eq!(hr, D3D_OK);
    let mut wrapper = resource.unwrap();
    assert_eq!(wrapper.internal_flags, D3D8_INTERNAL_LOCKABLE);
    assert_eq!(wrapper.header.inner(), NonZeroUsize::new(inner));

    // Releasing the wrapper returns the adopted D3D9 reference exactly once.
    let released = wrapper.release(&mut owners);
    assert_eq!(released.count, 0);
    assert_eq!(count(&released.inner, inner), 1);
}

#[test]
fn embedded_back_buffer_lifecycle() {
    let (dev9, surf_a, surf_b) = (0x9000, 0xa000, 0xb000);

    let mut device = Device8 {
        owners: Owners {
            device: Some(ComHeader::new_alive(nz(dev9))),
            parent: None,
        },
        back_buffer: Resource8::new_dead(),
    };
    let device_refs = |device: &Device8| device.owners.device.unwrap().game_refs();

    // `adopt` absorbs the pre-owned D3D9 reference as the wrapper's single owned reference
    // and takes the device reference, entering the alive state.
    let adoption = device.back_buffer.adopt(&mut device.owners, nz(surf_a));
    assert!(adoption.adopted);
    assert_eq!(device.back_buffer.header.game_refs(), 1);
    assert_eq!(device_refs(&device), 2);
    assert_eq!(adoption.release, None);

    // A second pre-owned reference to the same surface is redundant and returned immediately; no second device reference is taken.
    let adoption = device.back_buffer.adopt(&mut device.owners, nz(surf_a));
    assert!(adoption.adopted);
    assert_eq!(device.back_buffer.header.game_refs(), 2);
    assert_eq!(device_refs(&device), 2);
    assert_eq!(adoption.release, Some(nz(surf_a)));

    // A game-side AddRef touches only the wrapper count; the single owned surface reference is enough.
    assert_eq!(device.back_buffer.header.add_ref(), 3);

    // Reaching 0 releases the single surface reference and returns the device reference, entering the dead state.
    // The device's own D3D9 reference is untouched: it belongs to the device wrapper, which is still alive.
    let released = device.back_buffer.release(&mut device.owners);
    assert_eq!((released.count, released.inner.len()), (2, 0));
    let released = device.back_buffer.release(&mut device.owners);
    assert_eq!((released.count, released.inner.len()), (1, 0));
    let released = device.back_buffer.release(&mut device.owners);
    assert_eq!(released.count, 0);
    assert_eq!(count(&released.inner, surf_a), 1);
    assert_eq!(count(&released.inner, dev9), 0);
    assert_eq!(device_refs(&device), 1);

    // AddRef or Release calls after death are refused without touching the stale inner pointer.
    let released = device.back_buffer.release(&mut device.owners);
    assert_eq!((released.count, released.inner.len()), (0, 0));
    assert_eq!(device.back_buffer.header.add_ref(), 0);

    // Adoption after a Reset wraps the freshly acquired surface, not the stale one.
    assert!(device.back_buffer.adopt(&mut device.owners, nz(surf_b)).adopted);
    assert_eq!(unwrap8(Some(&device.back_buffer.header)), Some(nz(surf_b)));
    let released = device.back_buffer.release(&mut device.owners);
    assert_eq!(released.count, 0);
    assert_eq!(count(&released.inner, surf_b), 1);
    assert_eq!(device_refs(&device), 1);

    // Releasing the device to death releases its single D3D9 device reference.
    let released = device8_release(&mut device.owners);
    assert_eq!(released.count, 0);
    assert_eq!(count(&released.inner, dev9), 1);
}

#[test]
fn adopt_divergent_inner_refused() {
    let (surf_a, surf_b) = (0xa000, 0xb000);
    let mut owners = no_owners();
    let mut wrapper = Resource8::new_dead();
    assert!(wrapper.adopt(&mut owners, nz(surf_a)).adopted);
    // A different surface arriving on a live wrapper is refused; the incoming reference is returned
    // and the wrapper still holds the original surface.
    let adoption = wrapper.adopt(&mut owners, nz(surf_b));
    assert!(!adoption.adopted);
    assert_eq!(adoption.release, Some(nz(surf_b)));
    assert_eq!(wrapper.header.game_refs(), 1);
    assert_eq!(wrapper.header.inner(), Some(nz(surf_a)));
}

fn released(inner: usize) -> Resource8 {
    let mut owners = no_owners();
    let mut wrapper = wrap_created(D3D_OK, inner, &mut owners, true).resource.unwrap();
    assert_eq!(wrapper.release(&mut owners).count, 0);
    wrapper
}

#[test]
fn dead_wrapper_calls_refused() {
    // A surface wrapper released to death refuses methods without touching the released D3D9 object.
    let surf = released(0xa000);
    assert_eq!(unwrap8(Some(&surf.header)), None);
    assert_eq!(claim_opaque(true, &surf.header), Err(D3DERR_INVALIDCALL));
    assert_eq!(
        forward_with_arg(&surf.header, None),
        Err::<(usize, usize), HResult>(D3DERR_INVALIDCALL)
    );

    assert_eq!(forward_to(Some(&surf.header), MethodKind::Status), Err(D3DERR_INVALIDCALL));

    // A `u32`-returning slot gets the zero dead-default.
    let tex = released(0xb000);
    assert_eq!(forward_to(Some(&tex.header), MethodKind::Count), Err(0));

    // The reference-handing methods refuse a dead receiver too, nulling the out-slot.
    let mut owner = Some(ComHeader::new_alive(nz(0x9000)));
    assert_eq!(
        get_owner(&surf.header, &mut owner, true),
        (D3DERR_INVALIDCALL, OutWrite::Cleared)
    );
    assert_eq!(owner.unwrap().game_refs(), 1);
    assert_eq!(
        claim_out(true, &surf.header),
        Err(Refusal { hr: D3DERR_INVALIDCALL, out: OutWrite::Cleared })
    );
}

#[test]
fn forwarded_methods_answer_by_their_kind() {
    let live = ComHeader::new_alive(nz(0x9000));
    let dead = released(0xa000);
    for (kind, answer) in [
        (MethodKind::Status, D3DERR_INVALIDCALL),
        (MethodKind::Count, 0),
        (MethodKind::Nothing, 0),
    ] {
        assert_eq!(forward_to(Some(&live), kind), Ok(0x9000));
        assert_eq!(forward_to(Some(&dead.header), kind), Err(answer));
        assert_eq!(forward_to(None, kind), Err(answer));
        assert_eq!(kind.dead(), answer);
    }
}

#[test]
fn dead_argument_wrapper_refused() {
    let device = ComHeader::new_alive(nz(0x9000));
    let tex = released(0xa000);

    // A dead wrapper in an argument position is a use-after-release and refused before the live device's vtable is ever touched.
    assert_eq!(
        forward_with_arg(&device, Some(&tex.header)),
        Err(D3DERR_INVALIDCALL)
    );

    assert_eq!(unwrap8_arg(None), Ok(0));
    assert!(unwrap8_arg(Some(&tex.header)).is_err());

    let live = wrap_created(D3D_OK, 0xb000, &mut no_owners(), false).resource.unwrap();
    assert_eq!(unwrap8_arg(Some(&live.header)), Ok(0xb000));
    assert_eq!(forward_with_arg(&device, Some(&live.header)), Ok((0x9000, 0xb000)));
    assert_eq!(forward_with_arg(&device, None), Ok((0x9000, 0)));
}

fn desc_with(width: u32, height: u32) -> SurfaceDesc9 {
    SurfaceDesc9 {
        width,
        height,
        ..Default::default()
    }
}

fn rect(left: i32, top: i32, right: i32, bottom: i32) -> Rect {
    Rect {
        left,
        top,
        right,
        bottom,
    }
}

#[test]
fn copy_rect_validation() {
    let sd = desc_with(640, 480);
    let dd = desc_with(256, 256);
    let origin = Point { x: 0, y: 0 };

    assert!(copy_rect_valid(
        &rect(0, 0, 640, 480),
        &Point { x: 0, y: 0 },
        &sd,
        &desc_with(640, 480),
    ));
    assert!(copy_rect_valid(
        &rect(10, 20, 100, 120),
        &Point { x: 166, y: 156 },
        &sd,
        &dd
    ));

    assert!(!copy_rect_valid(&rect(100, 0, 10, 50), &origin, &sd, &dd));
    assert!(!copy_rect_valid(&rect(0, 100, 50, 10), &origin, &sd, &dd));
    assert!(!copy_rect_valid(&rect(5, 5, 5, 50), &origin, &sd, &dd));
    assert!(!copy_rect_valid(&rect(-1, 0, 10, 10), &origin, &sd, &dd));
    assert!(!copy_rect_valid(&rect(0, 0, 641, 10), &origin, &sd, &dd));
    assert!(!copy_rect_valid(
        &rect(0, 0, 100, 100),
        &Point { x: 200, y: 0 },
        &sd,
        &dd
    ));
    assert!(!copy_rect_valid(
        &rect(0, 0, 100, 100),
        &Point { x: -1, y: 0 },
        &sd,
        &dd
    ));
    assert!(!copy_rect_valid(
        &rect(0, 0, i32::MAX, 1),
        &Point { x: i32::MAX, y: 0 },
        &sd,
        &dd
    ));
}

#[test]
fn caps_translation_fields() {
    let mut c9 = vec![0u32; CAPS9_WORDS];
    c9[CAPS_ADAPTER_ORDINAL] = 3;
    c9[CAPS_PRESENTATION_INTERVALS] = 0x8000_000f;
    c9[CAPS_TEXTURE_OP_CAPS] = 0x42;
    c9[CAPS_MAX_TEXTURE_WIDTH] = 16384;
    c9[CAPS_MAX_SIMULTANEOUS_TEXTURES] = 8;
    c9[CAPS_MAX_PIXEL_SHADER_VALUE] = 8.0f32.to_bits();
    let c8 = caps_9_to_8(&c9);
    assert_eq!(c8.len(), CAPS8_WORDS);
    assert_eq!(c8[CAPS_ADAPTER_ORDINAL], 3);
    assert_eq!(c8[CAPS_PRESENTATION_INTERVALS], c9[CAPS_PRESENTATION_INTERVALS]);
    assert_eq!(c8[CAPS_TEXTURE_OP_CAPS], 0x42);
    assert_eq!(c8[CAPS_MAX_TEXTURE_WIDTH], 16384);
    assert_eq!(c8[CAPS_MAX_SIMULTANEOUS_TEXTURES], 8);
    assert_eq!(c8[CAPS_MAX_PIXEL_SHADER_VALUE], 8.0f32.to_bits());
}

#[test]
fn surface_desc_translation_sizes() {
    let d9 = SurfaceDesc9 {
        format: D3DFMT_X8R8G8B8,
        usage: 0,
        pool: D3DPOOL_SYSTEMMEM,
        multi_sample_type: D3DMULTISAMPLE_NONE,
        multi_sample_quality: 0,
        width: 640,
        height: 480,
        ..Default::default()
    };
    let d8 = surface_desc_9_to_8(&d9);
    assert_eq!(d8.width, 640);
    assert_eq!(d8.height, 480);
    assert_eq!(d8.size, 640 * 480 * 4);
    assert_eq!(d8.pool, D3DPOOL_SYSTEMMEM);

    let d9_16 = SurfaceDesc9 {
        format: D3DFMT_R5G6B5,
        width: 256,
        height: 128,
        ..Default::default()
    };
    assert_eq!(surface_desc_9_to_8(&d9_16).size, 256 * 128 * 2);

    let text_buffer = SurfaceDesc9 {
        format: D3DFMT_A1R5G5B5,
        width: 1024,
        height: 64,
        ..Default::default()
    };
    assert_eq!(surface_desc_9_to_8(&text_buffer).size, 1024 * 64 * 2);

    // We fall back for formats with nonlinear rows.
    let compressed = SurfaceDesc9 {
        format: D3DFMT_DXT1,
        width: 64,
        height: 32,
        ..Default::default()
    };
    assert_eq!(surface_desc_9_to_8(&compressed).size, 64 * 32 * 4);
    // A size that does not fit saturates.
    let huge = SurfaceDesc9 {
        format: D3DFMT_X8R8G8B8,
        width: u32::MAX,
        height: u32::MAX,
        ..Default::default()
    };
    assert_eq!(surface_desc_9_to_8(&huge).size, u32::MAX);
}

#[test]
fn a_device_keeps_its_parent() {
    let mut parent = hook_direct3dcreate8(Some(nz(0x1000))).unwrap();
    assert!(hook_direct3dcreate8(None).is_none());
    let mut pp8 = base_pp8();
    let (inner, mut pp9) = d3d8_create_device(true, &parent, Some(&pp8)).unwrap();
    assert_eq!(inner, 0x1000);
    pp9.back_buffer_width = 1280;
    let mut device = create_device(&mut parent, D3D_OK, 0x9000, &mut pp8, &pp9).unwrap();
    assert_eq!(pp8.back_buffer_width, 1280);
    assert_eq!(parent.game_refs(), 2);
    assert_eq!(device.owners.device.unwrap().game_refs(), 1);
    // The game lets go of the parent first.
    let released = d3d8_release(&mut device.owners);
    assert_eq!((released.count, released.inner.len()), (1, 0));
    let released = device8_release(&mut device.owners);
    assert_eq!(released.count, 0);
    assert_eq!(released.inner, vec![nz(0x9000), nz(0x1000)]);
}

#[test]
fn creations_are_refused_before_they_reach_the_runtime() {
    let parent = ComHeader::new_alive(nz(0x1000));
    let dead = ComHeader::new_dead();
    let pp8 = base_pp8();
    let untouched = Refusal { hr: D3DERR_INVALIDCALL, out: OutWrite::Untouched };
    let cleared = Refusal { hr: D3DERR_INVALIDCALL, out: OutWrite::Cleared };
    assert_eq!(d3d8_create_device(false, &parent, Some(&pp8)), Err(untouched));
    assert_eq!(d3d8_create_device(true, &parent, None), Err(cleared));
    assert_eq!(d3d8_create_device(true, &dead, Some(&pp8)), Err(cleared));
    assert_eq!(claim_out(false, &parent), Err(untouched));
    assert_eq!(claim_out(true, &parent), Ok(0x1000));
    assert_eq!(claim_opaque(false, &parent), Err(D3DERR_INVALIDCALL));
    assert_eq!(claim_opaque(true, &parent), Ok(0x1000));

    let mut alive = parent;
    let mut copy = pp8;
    let failed = create_device(
        &mut alive,
        D3DERR_OUTOFVIDEOMEMORY,
        0,
        &mut copy,
        &PresentParameters::default(),
    );
    assert!(matches!(failed, Err(D3DERR_OUTOFVIDEOMEMORY)));
    let failed = create_device(&mut alive, D3D_OK, 0, &mut copy, &PresentParameters::default());
    assert!(matches!(failed, Err(D3DERR_INVALIDCALL)));
    assert_eq!(alive.game_refs(), 1);
    assert_eq!(copy, pp8);
}

#[test]
fn resets_sync_back_on_success() {
    let device = ComHeader::new_alive(nz(0x9000));
    let mut pp8 = base_pp8();
    let (inner, mut pp9) = device8_reset(&device, Some(&pp8)).unwrap();
    assert_eq!(inner, 0x9000);
    assert_eq!(device8_reset(&device, None), Err(D3DERR_INVALIDCALL));
    assert_eq!(device8_reset(&ComHeader::new_dead(), Some(&pp8)), Err(D3DERR_INVALIDCALL));
    pp9.back_buffer_format = D3DFMT_A8R8G8B8;
    assert_eq!(finish_reset(D3DERR_INVALIDCALL, &mut pp8, &pp9), D3DERR_INVALIDCALL);
    assert_eq!(pp8, base_pp8());
    assert_eq!(finish_reset(D3D_OK, &mut pp8, &pp9), D3D_OK);
    assert_eq!(pp8.back_buffer_format, D3DFMT_A8R8G8B8);
}

#[test]
fn syncing_a_plain_conversion_changes_nothing() {
    let mut pp8 = base_pp8();
    let pp9 = convert_present_params(&pp8);
    sync_present_params_back(&mut pp8, &pp9);
    assert_eq!(pp8, base_pp8());
}

#[test]
fn no_interface_is_handed_out() {
    assert_eq!(
        wrap_query_interface(true),
        Refusal { hr: E_NOINTERFACE, out: OutWrite::Cleared }
    );
    assert_eq!(
        wrap_query_interface(false),
        Refusal { hr: D3DERR_INVALIDCALL, out: OutWrite::Untouched }
    );
    assert_eq!(
        surface8_get_container(true),
        Refusal { hr: E_NOINTERFACE, out: OutWrite::Cleared }
    );
    assert_eq!(
        surface8_get_container(false),
        Refusal { hr: E_NOINTERFACE, out: OutWrite::Untouched }
    );
}

#[test]
fn surfaces_are_lockable_as_they_were_created() {
    for (creation, flags) in [
        (Creation::Texture, 0),
        (Creation::TextureLevel, 0),
        (Creation::VertexBuffer, 0),
        (Creation::RenderTarget { lockable: 0 }, 0),
        (Creation::RenderTarget { lockable: 1 }, D3D8_INTERNAL_LOCKABLE),
        (Creation::ImageSurface, D3D8_INTERNAL_LOCKABLE),
    ] {
        let mut owners = Owners {
            device: Some(ComHeader::new_alive(nz(0x9000))),
            parent: None,
        };
        let created = creation.finish(D3D_OK, 0xa000, &mut owners);
        assert_eq!(created.resource.unwrap().internal_flags, flags, "{creation:?}");
        assert_eq!(owners.device.unwrap().game_refs(), 2, "{creation:?}");
    }
}

#[test]
fn descriptions_and_caps_come_only_with_success() {
    let d9 = desc_with(4, 4);
    assert_eq!(surface8_get_desc(1, &d9), (D3D_OK, Some(surface_desc_9_to_8(&d9))));
    assert_eq!(surface8_get_desc(D3DERR_INVALIDCALL, &d9), (D3DERR_INVALIDCALL, None));
    assert_eq!(texture8_get_level_desc(1, &d9), (1, Some(surface_desc_9_to_8(&d9))));
    assert_eq!(texture8_get_level_desc(D3DERR_INVALIDCALL, &d9), (D3DERR_INVALIDCALL, None));
    let caps = vec![7u32; CAPS9_WORDS];
    assert_eq!(device8_get_device_caps(D3D_OK, &caps), (D3D_OK, Some(vec![7u32; CAPS8_WORDS])));
    assert_eq!(
        device8_get_device_caps(D3DERR_INVALIDCALL, &caps),
        (D3DERR_INVALIDCALL, None)
    );
}

#[test]
fn back_buffers_are_embedded_or_fresh() {
    let mut device = Device8 {
        owners: Owners {
            device: Some(ComHeader::new_alive(nz(0x9000))),
            parent: None,
        },
        back_buffer: Resource8::new_dead(),
    };
    let mono = D3DBACKBUFFER_TYPE_MONO;
    let res = device.get_back_buffer(0, mono, D3D_OK, 0xa000);
    assert!(matches!(res.answer, BackBufferAnswer::Embedded));
    assert_eq!((res.hr, res.release), (D3D_OK, None));
    let res = device.get_back_buffer(1, mono, D3D_OK, 0xb000);
    assert!(matches!(res.answer, BackBufferAnswer::Fresh(fresh) if fresh.header.game_refs() == 1));
    let res = device.get_back_buffer(0, mono, D3D_OK, 0xb000);
    assert_eq!((res.hr, res.release), (D3DERR_INVALIDCALL, Some(nz(0xb000))));
    let res = device.get_back_buffer(0, mono, D3D_OK, 0);
    assert_eq!(res.hr, D3DERR_INVALIDCALL);
    let res = device.get_back_buffer(0, mono, D3DERR_OUTOFVIDEOMEMORY, 0);
    assert_eq!(res.hr, D3DERR_OUTOFVIDEOMEMORY);
}

#[test]
fn sampler_states_moved_out_of_the_stages() {
    let moved: Vec<(u32, u32)> = (0..64)
        .filter_map(|ty| tss_to_sampler_state(ty).map(|s| (ty, s)))
        .collect();
    assert_eq!(
        moved,
        vec![
            (13, 1),
            (14, 2),
            (15, 4),
            (16, 5),
            (17, 6),
            (18, 7),
            (19, 8),
            (20, 9),
            (21, 10),
            (25, 3),
        ]
    );
    let device = ComHeader::new_alive(nz(0x9000));
    assert_eq!(
        set_texture_stage_state(&device, 16),
        Ok(StageStateCall::SamplerState { sampler: 5 })
    );
    assert_eq!(
        set_texture_stage_state(&device, 1),
        Ok(StageStateCall::StageState { ty: 1 })
    );
    assert_eq!(
        set_texture_stage_state(&ComHeader::new_dead(), 1),
        Err(D3DERR_INVALIDCALL)
    );
}

#[test]
fn removed_render_states_are_dropped_or_translated() {
    let device = ComHeader::new_alive(nz(0x9000));
    let call = |state, value| set_render_state(&device, state, value).unwrap();
    assert_eq!(call(D3DRS8_EDGEANTIALIAS, 0), RenderStateCall::Dropped { expected: true });
    assert_eq!(call(D3DRS8_LINEPATTERN, 0), RenderStateCall::Dropped { expected: false });
    assert_eq!(call(D3DRS8_ZBIAS, 3), RenderStateCall::Dropped { expected: false });
    assert_eq!(
        call(D3DRS8_SOFTWAREVERTEXPROCESSING, 1),
        RenderStateCall::SoftwareVertexProcessing { enable: 1 }
    );
    assert_eq!(
        call(D3DRS8_PATCHSEGMENTS, 1.0f32.to_bits()),
        RenderStateCall::NPatchMode { bits: 1.0f32.to_bits() }
    );
    assert_eq!(call(7, 1), RenderStateCall::RenderState { state: 7, value: 1 });
    assert_eq!(
        set_render_state(&ComHeader::new_dead(), 7, 1),
        Err(D3DERR_INVALIDCALL)
    );
}

#[test]
fn copies_take_the_call_that_fits_the_pools() {
    let of = |pool| SurfaceDesc9 { pool, ..desc_with(64, 64) };
    let (sys, def) = (of(D3DPOOL_SYSTEMMEM), of(D3DPOOL_DEFAULT));
    let (whole, origin) = (rect(0, 0, 64, 64), Point { x: 0, y: 0 });
    let part = rect(0, 0, 8, 8);
    assert_eq!(choose_copy_call(&whole, &origin, &sys, &def), Some(CopyCall::UpdateSurface));
    assert_eq!(
        choose_copy_call(&whole, &origin, &def, &sys),
        Some(CopyCall::GetRenderTargetData)
    );
    assert_eq!(choose_copy_call(&part, &origin, &def, &sys), None);
    assert_eq!(choose_copy_call(&part, &origin, &def, &def), Some(CopyCall::StretchRect));
    assert_eq!(choose_copy_call(&part, &origin, &sys, &sys), None);
    assert_eq!(dest_rect(&part, &Point { x: 3, y: 4 }), rect(3, 4, 11, 12));
}

#[test]
fn copy_requests_default_to_the_whole_source() {
    let device = ComHeader::new_alive(nz(0x9000));
    let desc = Some(desc_with(64, 32));
    let plan = plan_copy_rects(&device, desc, desc, None, 0, None).unwrap();
    assert_eq!((plan.rect, plan.point), (rect(0, 0, 64, 32), Point { x: 0, y: 0 }));
    let plan = plan_copy_rects(&device, desc, desc, Some(rect(4, 8, 16, 12)), 1, None).unwrap();
    assert_eq!(plan.point, Point { x: 4, y: 8 });
    let two = plan_copy_rects(&device, desc, desc, Some(rect(4, 8, 16, 12)), 2, None);
    assert_eq!(two, Err(D3DERR_INVALIDCALL));
    let other = Some(SurfaceDesc9 { format: D3DFMT_R5G6B5, ..desc_with(64, 32) });
    assert_eq!(
        plan_copy_rects(&device, desc, other, None, 0, None),
        Err(D3DERR_INVALIDCALL)
    );
}

#[test]
fn locked_copies_move_rows() {
    let mut dst = vec![0u8; 12];
    copy_rows(&[1, 2, 3, 4, 5, 6, 7, 8], 4, &mut dst, 6, 3, 2);
    assert_eq!(dst, [1, 2, 3, 0, 0, 0, 5, 6, 7, 0, 0, 0]);
    let copy = plan_locked_copy(D3DFMT_R5G6B5, 1, 2, &rect(0, 0, 2, 2), &Point { x: 1, y: 1 });
    let copy = copy.unwrap();
    assert_eq!((copy.width_bytes, copy.rows), (4, 2));
    assert_eq!(copy.dst_rect, rect(1, 1, 3, 3));
    assert_eq!(
        plan_locked_copy(D3DFMT_R5G6B5, 1, 1, &rect(0, 0, 2, 2), &Point { x: 1, y: 1 }),
        Err(D3DERR_INVALIDCALL)
    );
    assert_eq!(
        plan_locked_copy(D3DFMT_DXT1, 1, 2, &rect(0, 0, 2, 2), &Point { x: 1, y: 1 }),
        Err(D3DERR_INVALIDCALL)
    );
    let bits = |bits: &[u8]| Ok(LockedBits { bits: bits.to_vec(), pitch: 4 });
    assert_eq!(copy_locked(&copy, bits(&[1; 8]), Err(-5)), Err(-5));
    assert_eq!(copy_locked(&copy, Err(-4), Err(-5)), Err(-4));
    assert_eq!(copy_locked(&copy, bits(&[1; 8]), bits(&[0; 8])), Ok(vec![1; 8]));
}

fn answers(call: HResult) -> CopyAnswers {
    let desc = SurfaceDesc9 {
        format: D3DFMT_R5G6B5,
        pool: D3DPOOL_DEFAULT,
        ..desc_with(2, 2)
    };
    CopyAnswers {
        src_desc: Some(desc),
        dst_desc: Some(desc),
        call,
        src_lock: Ok(LockedBits { bits: vec![1; 8], pitch: 4 }),
        dst_lock: Ok(LockedBits { bits: vec![0; 8], pitch: 4 }),
    }
}

#[test]
fn copies_fall_back_to_locks() {
    let device = ComHeader::new_alive(nz(0x9000));
    let (src, dst) = (ComHeader::new_alive(nz(0xa000)), ComHeader::new_alive(nz(0xb000)));
    let request = CopyRequest { rect: None, rect_count: 0, point: None };
    let done = device8_copy_rects(&device, Some(&src), Some(&dst), request, answers(D3D_OK));
    assert_eq!((done.hr, done.call), (D3D_OK, Some(CopyCall::StretchRect)));
    assert!(done.written.is_none());
    let fell = device8_copy_rects(
        &device,
        Some(&src),
        Some(&dst),
        request,
        answers(D3DERR_INVALIDCALL),
    );
    assert_eq!(fell.hr, D3D_OK);
    assert_eq!(fell.written, Some(vec![1; 8]));
    // A surface is not copied onto itself by locks.
    let own = device8_copy_rects(
        &device,
        Some(&src),
        Some(&src),
        request,
        answers(D3DERR_OUTOFVIDEOMEMORY),
    );
    assert_eq!(own.hr, D3DERR_INVALIDCALL);
    let dead = ComHeader::new_dead();
    for (s, d) in [(Some(&dead), Some(&dst)), (Some(&src), None)] {
        let refused = device8_copy_rects(&device, s, d, request, answers(D3D_OK));
        assert_eq!((refused.hr, refused.call), (D3DERR_INVALIDCALL, None));
        assert_eq!(copy_operands(s, d), Err(D3DERR_INVALIDCALL));
    }
}

#[test]
fn textures_are_updated_between_live_wrappers() {
    let device = ComHeader::new_alive(nz(0x9000));
    let (src, dead) = (ComHeader::new_alive(nz(0xa000)), ComHeader::new_dead());
    assert_eq!(
        device8_update_texture(&device, Some(&src), None),
        Ok((0x9000, 0xa000, 0))
    );
    assert_eq!(
        device8_update_texture(&device, Some(&src), Some(&dead)),
        Err(D3DERR_INVALIDCALL)
    );
    assert_eq!(
        device8_update_texture(&dead, Some(&src), None),
        Err(D3DERR_INVALIDCALL)
    );
}

#[test]
fn owners_are_handed_out_with_a_reference() {
    let receiver = ComHeader::new_alive(nz(0xa000));
    let mut owner = Some(ComHeader::new_alive(nz(0x9000)));
    assert_eq!(get_owner(&receiver, &mut owner, true), (D3D_OK, OutWrite::Object));
    assert_eq!(owner.unwrap().game_refs(), 2);
    assert_eq!(
        get_owner(&receiver, &mut owner, false),
        (D3DERR_INVALIDCALL, OutWrite::Untouched)
    );
    assert_eq!(
        get_owner(&receiver, &mut None, true),
        (D3DERR_INVALIDCALL, OutWrite::Cleared)
    );
    let mut header = receiver;
    assert_eq!(header.release(), ReleaseOutcome::Died { inner: nz(0xa000) });
    assert_eq!(header.release(), ReleaseOutcome::OverRelease);
}

#[test]
fn the_first_callback_before_creation_wins() {
    let mut slot: FnSlot<u32> = FnSlot::new("PRE_CREATE");
    set_pre_create_fn(&mut slot, 1);
    set_pre_create_fn(&mut slot, 2);
    assert_eq!(slot.try_get(), Some(1));
    assert!(shim_policy().keep_lockable_back_buffer);
    assert!(shim_policy().upgrade_16bit_back_buffer);
}
