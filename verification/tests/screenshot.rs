//! Screenshots: image files, file names, and the course of a capture.

use neopatch_core::d3d::{
    D3DERR_INVALIDCALL, D3DFMT_A1R5G5B5, D3DFMT_A8R8G8B8, D3DFMT_DXT1, D3DFMT_R5G6B5,
    D3DFMT_X1R5G5B5, D3DFMT_X8R8G8B8, D3D_OK,
};
use neopatch_core::nonzero::NonZeroUsize;
use neopatch_core::screenshot::{
    after_capture_call, build_bmp_24bpp, build_png_24bpp, ensure_parent, live_save, nul_terminate,
    png_outcome, rgb_data, sanitize_filename, tmp_path, write_atomic, write_len, CaptureCall,
    CaptureError, CaptureNext, FilenameDefect, LiveSave, PendingCapture, PngError, PngStage,
    SourceFormat, Stash, WriteAction, WriteEvent, MAX_PATH,
};
use png::{BitDepth, ColorType, Decoder};
use std::io::Cursor;

#[test]
fn build_bmp_24bpp_layout() {
    // 3x2 source, pitch = 16 bytes/row. The 0xAA row tail padding must be skipped by the stride math.
    let src = [
        0x01, 0x02, 0x03, 0xff,    0x04, 0x05, 0x06, 0xff,    0x07, 0x08, 0x09, 0xff,    0xaa, 0xaa, 0xaa, 0xaa,
        0x11, 0x12, 0x13, 0xff,    0x14, 0x15, 0x16, 0xff,    0x17, 0x18, 0x19, 0xff,    0xaa, 0xaa, 0xaa, 0xaa,
    ];
    let out = build_bmp_24bpp(3, 2, 16, &src, SourceFormat::Bgrx8888).expect("encode");
    assert_eq!(&out[..2], b"BM");
    assert_eq!(out.len(), 54 + 12 * 2);
    assert_eq!(u32::from_le_bytes(out[2..6].try_into().unwrap()), 78);
    assert_eq!(u32::from_le_bytes(out[10..14].try_into().unwrap()), 54);
    assert_eq!(u16::from_le_bytes(out[28..30].try_into().unwrap()), 24);

    let expected_pixels: [u8; 24] = [
        0x11, 0x12, 0x13,    0x14, 0x15, 0x16,    0x17, 0x18, 0x19,    0, 0, 0,
        0x01, 0x02, 0x03,    0x04, 0x05, 0x06,    0x07, 0x08, 0x09,    0, 0, 0,
    ];
    assert_eq!(&out[54..], &expected_pixels);
}

/// Encodes a top-down source of `format` and decodes the PNG back into `(width, height, RGB bytes)`.
fn round_trip(
    width: u32,
    height: u32,
    pitch: i32,
    src: &[u8],
    format: SourceFormat,
) -> (u32, u32, Vec<u8>) {
    let encoded = build_png_24bpp(width, height, pitch, src, format).expect("encode");

    let mut reader = Decoder::new(Cursor::new(encoded.as_slice()))
        .read_info()
        .expect("read_info");
    let mut buf = vec![0u8; reader.output_buffer_size().expect("output_buffer_size")];
    let info = reader.next_frame(&mut buf).expect("next_frame");

    assert_eq!(info.color_type, ColorType::Rgb);
    assert_eq!(info.bit_depth, BitDepth::Eight);

    buf.truncate(info.buffer_size());
    (info.width, info.height, buf)
}

#[test]
fn build_png_24bpp_round_trip() {
    const BLUE: [u8; 3] = [0x00, 0x00, 0xff];
    const GREEN: [u8; 3] = [0x00, 0xff, 0x00];
    const RED: [u8; 3] = [0xff, 0x00, 0x00];
    const WHITE: [u8; 3] = [0xff, 0xff, 0xff];
    const YELLOW: [u8; 3] = [0xff, 0xff, 0x00];
    const MAGENTA: [u8; 3] = [0xff, 0x00, 0xff];

    // 2x2 source, pitch = 8 bytes/row. There is no row tail to skip.
    let tight = [
        0xff, 0x00, 0x00, 0x00,    0x00, 0xff, 0x00, 0x00, // blue, green
        0x00, 0x00, 0xff, 0x00,    0xff, 0xff, 0xff, 0x00, // red, white
    ];
    assert_eq!(
        round_trip(2, 2, 8, &tight, SourceFormat::Bgrx8888),
        (2, 2, [BLUE, GREEN, RED, WHITE].concat()),
    );

    // 2x3 source, pitch = 12 bytes/row. The 0xAA row tail padding must be skipped by the stride math.
    let padded = [
        0xff, 0x00, 0x00, 0x00,    0x00, 0xff, 0x00, 0x00,    0xaa, 0xaa, 0xaa, 0xaa, // blue, green
        0x00, 0x00, 0xff, 0x00,    0xff, 0xff, 0xff, 0x00,    0xaa, 0xaa, 0xaa, 0xaa, // red, white
        0x00, 0xff, 0xff, 0x00,    0xff, 0x00, 0xff, 0x00,    0xaa, 0xaa, 0xaa, 0xaa, // yellow, magenta
    ];
    assert_eq!(
        round_trip(2, 3, 12, &padded, SourceFormat::Bgrx8888),
        (2, 3, [BLUE, GREEN, RED, WHITE, YELLOW, MAGENTA].concat()),
    );
}

#[test]
fn build_png_24bpp_decode_565() {
    // 2x2 source, pitch = 6 bytes/row. The 0xAA row tail padding must be skipped by the stride math.
    let src = [
        0x00, 0xf8,    0xe0, 0x07,    0xaa, 0xaa, // red, green
        0x1f, 0x00,    0x08, 0x42,    0xaa, 0xaa, // blue, mixed
    ];
    let mixed = [
        (8 << 3) | (8 >> 2),
        (16 << 2) | (16 >> 4),
        (8 << 3) | (8 >> 2),
    ];
    assert_eq!(
        round_trip(2, 2, 6, &src, SourceFormat::Bgr565),
        (
            2,
            2,
            [[255, 0, 0], [0, 255, 0], [0, 0, 255], mixed].concat()
        ),
    );
}

#[test]
fn build_bmp_24bpp_decode_555() {
    // 2x1 source.
    let src = [0x00, 0x7c,    0xff, 0xff]; // red, white
    let out = build_bmp_24bpp(2, 1, 4, &src, SourceFormat::Bgr555).expect("encode");
    assert_eq!(&out[54..], &[0, 0, 255, 255, 255, 255, 0, 0]);
}

#[test]
fn images_without_pixels_are_refused_as_png() {
    for (width, height) in [(0, 1), (1, 0)] {
        let res = build_png_24bpp(width, height, 4, &[0; 4], SourceFormat::Bgrx8888);
        assert!(res.is_err(), "{width}x{height}");
    }
}

#[test]
fn a_png_is_no_copy_of_its_pixels() {
    let src = [0x10, 0x20, 0x30, 0xff];
    let rgb = rgb_data(1, 1, 4, &src, SourceFormat::Bgrx8888).unwrap();
    assert_eq!(rgb, [0x30, 0x20, 0x10]);
    let png = build_png_24bpp(1, 1, 4, &src, SourceFormat::Bgrx8888).unwrap();
    assert_eq!(&png[..8], &[0x89, b'P', b'N', b'G', 0x0d, 0x0a, 0x1a, 0x0a]);
    assert_ne!(png, rgb);
}

#[test]
fn png_failures_name_their_stage() {
    let failed = |stage| {
        png_outcome(Err(PngError {
            stage,
            detail: "why".to_string(),
        }))
        .unwrap_err()
    };
    let all = [
        failed(PngStage::Header),
        failed(PngStage::ImageData),
        failed(PngStage::Finish),
    ];
    for text in &all {
        assert!(text.ends_with("why"), "{text}");
    }
    assert!(all[0] != all[1] && all[1] != all[2] && all[0] != all[2]);
    assert_eq!(png_outcome(Ok(vec![1, 2])), Ok(vec![1, 2]));
}

#[test]
fn sizes_that_do_not_fit_are_refused() {
    let wide = build_bmp_24bpp(u32::MAX, 0, 0, &[], SourceFormat::Bgrx8888);
    assert_eq!(wide.unwrap_err(), "width too large");
    let tall = build_bmp_24bpp(1, u32::MAX, 0, &[0; 4], SourceFormat::Bgrx8888);
    assert_eq!(tall.unwrap_err(), "image too large");
    let full = build_bmp_24bpp(1, 0x3fff_ffff, 0, &[0; 4], SourceFormat::Bgrx8888);
    assert_eq!(full.unwrap_err(), "file size overflow");
    let empty = build_bmp_24bpp(0, 0, 0, &[], SourceFormat::Bgrx8888).unwrap();
    assert_eq!(empty.len(), 54);
}

#[test]
fn formats_that_can_be_decoded() {
    assert_eq!(SourceFormat::from_d3d(D3DFMT_X8R8G8B8), Ok(SourceFormat::Bgrx8888));
    assert_eq!(SourceFormat::from_d3d(D3DFMT_A8R8G8B8), Ok(SourceFormat::Bgrx8888));
    assert_eq!(SourceFormat::from_d3d(D3DFMT_R5G6B5), Ok(SourceFormat::Bgr565));
    assert_eq!(SourceFormat::from_d3d(D3DFMT_X1R5G5B5), Ok(SourceFormat::Bgr555));
    assert_eq!(SourceFormat::from_d3d(D3DFMT_A1R5G5B5), Ok(SourceFormat::Bgr555));
    assert!(SourceFormat::from_d3d(D3DFMT_DXT1).is_err());
    assert_eq!(SourceFormat::Bgr565.decode(&[0x08, 0x42], 0), [66, 65, 66]);
    assert_eq!(SourceFormat::Bgrx8888.bytes_per_pixel(), 4);
    assert_eq!(SourceFormat::Bgr555.bytes_per_pixel(), 2);
}

#[test]
fn file_names_are_checked() {
    assert_eq!(sanitize_filename(b"th06.bmp\0rest"), Ok(b"th06.bmp".to_vec()));
    assert_eq!(sanitize_filename(b""), Err(FilenameDefect::Unreadable));
    assert_eq!(sanitize_filename(b"\0"), Err(FilenameDefect::Empty));
    assert_eq!(
        sanitize_filename(&[b'a'; MAX_PATH]),
        Err(FilenameDefect::TooLongOrUnterminated)
    );
}

#[test]
fn files_are_written_beside_their_target() {
    assert_eq!(tmp_path(b"a/b.bmp"), b"a/b.bmp.tmp");
    assert_eq!(nul_terminate(b"ab"), b"ab\0");
    assert_eq!(ensure_parent(b"snapshot/th001.bmp"), Some(b"snapshot".to_vec()));
    assert_eq!(ensure_parent(b"snapshot\\th001.bmp"), Some(b"snapshot".to_vec()));
    assert_eq!(ensure_parent(b"th001.bmp"), None);
}

fn nz(addr: usize) -> NonZeroUsize {
    NonZeroUsize::new(addr).unwrap()
}

#[test]
fn a_stashed_capture_waits_for_its_device() {
    let mut pending = PendingCapture::new();
    assert!(matches!(
        pending.set_pending_cached_save(None, b"a".to_vec()),
        Stash::DroppedNoDevice
    ));
    assert_eq!(pending.on_pre_present(None, nz(0x10)), None);
    assert!(matches!(
        pending.set_pending_cached_save(Some(nz(0x10)), b"a".to_vec()),
        Stash::Stashed
    ));
    assert!(matches!(
        pending.set_pending_cached_save(Some(nz(0x10)), b"b".to_vec()),
        Stash::Replaced
    ));
    assert_eq!(
        pending.on_pre_present(Some(nz(0x10)), nz(0x10)),
        Some(b"b".to_vec())
    );
    assert_eq!(pending.on_pre_present(Some(nz(0x10)), nz(0x10)), None);
    let _ = pending.set_pending_cached_save(Some(nz(0x10)), b"c".to_vec());
    assert!(pending.drop_pending());
    assert!(!pending.drop_pending());
}

#[test]
fn live_saves_need_the_render_thread_and_a_device() {
    assert!(matches!(live_save(false, true, Some(nz(0x10))), LiveSave::Refused));
    assert!(matches!(live_save(true, false, Some(nz(0x10))), LiveSave::Refused));
    assert!(matches!(live_save(true, true, None), LiveSave::NoDevice));
    assert!(matches!(
        live_save(true, true, Some(nz(0x10))),
        LiveSave::Capture(dev) if dev == nz(0x10)
    ));
}

#[test]
fn a_capture_goes_call_by_call() {
    let ok = |call| after_capture_call(call, D3D_OK, D3DFMT_R5G6B5, true);
    assert!(matches!(
        ok(CaptureCall::GetBackBuffer),
        Ok(CaptureNext::Call(CaptureCall::GetDesc))
    ));
    assert!(matches!(
        ok(CaptureCall::GetDesc),
        Ok(CaptureNext::Call(CaptureCall::CreateOffscreenPlainSurface))
    ));
    assert!(matches!(
        ok(CaptureCall::CreateOffscreenPlainSurface),
        Ok(CaptureNext::Call(CaptureCall::GetRenderTargetData))
    ));
    assert!(matches!(
        ok(CaptureCall::GetRenderTargetData),
        Ok(CaptureNext::Call(CaptureCall::LockRect))
    ));
    assert!(matches!(
        ok(CaptureCall::LockRect),
        Ok(CaptureNext::Encode(SourceFormat::Bgr565))
    ));
    assert!(matches!(
        after_capture_call(CaptureCall::LockRect, D3DERR_INVALIDCALL, D3DFMT_R5G6B5, true),
        Err(CaptureError::Failed(CaptureCall::LockRect, D3DERR_INVALIDCALL))
    ));
    assert!(matches!(
        after_capture_call(CaptureCall::GetDesc, D3D_OK, D3DFMT_DXT1, true),
        Err(CaptureError::Unsupported(e)) if e == "unsupported back buffer format 0x31545844"
    ));
    assert!(matches!(
        after_capture_call(
            CaptureCall::CreateOffscreenPlainSurface,
            D3D_OK,
            D3DFMT_R5G6B5,
            false
        ),
        Err(CaptureError::NullSurface)
    ));
}

#[test]
fn files_appear_whole_or_not_at_all() {
    assert_eq!(write_len(78), Ok(78));
    assert!(matches!(write_atomic(8, WriteEvent::Created(Ok(()))), WriteAction::Write));
    assert!(matches!(write_atomic(8, WriteEvent::Created(Err(5))), WriteAction::Fail(_)));
    assert!(matches!(
        write_atomic(8, WriteEvent::Written { ok: true, written: 8, error: 0 }),
        WriteAction::CloseAndMove
    ));
    assert!(matches!(
        write_atomic(8, WriteEvent::Written { ok: true, written: 7, error: 0 }),
        WriteAction::CloseAndDelete(_)
    ));
    assert!(matches!(
        write_atomic(8, WriteEvent::Written { ok: false, written: 8, error: 112 }),
        WriteAction::CloseAndDelete(_)
    ));
}
