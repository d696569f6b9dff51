//! Hooks on imports, files, message boxes, input and the loaders.

use neopatch_core::ansi::{
    convert_logfont, convert_z, face_name, finish_wide, hook_create_file_a, hook_create_font,
    hook_delete_file_a, is_not_found, should_fall_back, wide_request, CodePage, HookNext, LogFontA,
    LogFontHead, CP_SHIFT_JIS, ERROR_FILE_NOT_FOUND, ERROR_PATH_NOT_FOUND, OPEN_EXISTING,
};
use neopatch_core::destructor_pump::{
    fpo_seh_prologue, install, pump, Config, Entries, Hook, Pump, PumpStep, WAIT_OBJECT_0,
    WAIT_TIMEOUT,
};
use neopatch_core::exit_hooks::{
    has_non_ascii, pcstr_to_string, pcwstr_to_string, try_show_wide, wants_wide, wide_log_string,
    widen,
};
use neopatch_core::iat::{
    data_directory, find_iat_slot, HookStatus, IatHook, InstallRecord, Recording, Registry,
    SlotOutcome,
    MAX_TRACKED,
};
use neopatch_core::input::{convert_pov, created_device, hook_get_device_state};
use neopatch_core::nonzero::{NonZeroU32, NonZeroUsize};
use neopatch_core::untrusted::{
    matches_nul_terminated, safe_read, safe_read_terminated, safe_read_until,
};

const OUR_HOOK: u32 = 0x3000_1000; // stand-in for a hook in neopatch's image
const FOREIGN_HOOK: u32 = 0x2000_1000; // stand-in for another tool's detour

/// Returns a record describing `slot` as `install` would leave it after writing `hook` there.
fn installed_record(slot: u32, hook: u32) -> InstallRecord {
    let mut record = InstallRecord::new("TestImport");
    record.set(slot, hook);
    record
}

#[test]
fn displacement_follows_live_slot() {
    assert_eq!(InstallRecord::new("NeverInstalled").displaced(OUR_HOOK), None);

    let record = installed_record(0x40_1000, OUR_HOOK);
    let mut slot = OUR_HOOK;

    assert_eq!(record.displaced(slot), None);

    slot = FOREIGN_HOOK;
    let (ours, seen) = record
        .displaced(slot)
        .expect("a rebound slot reads as displaced");
    assert_eq!(ours, OUR_HOOK);
    assert_eq!(seen, FOREIGN_HOOK);

    slot = OUR_HOOK;
    assert_eq!(record.displaced(slot), None);
}

#[test]
fn registry_installation_order() {
    let mut reg = Registry::new();
    let slot = 0x40_1000;

    for i in 0..MAX_TRACKED + 3 {
        reg.record(installed_record(slot, OUR_HOOK + i as u32));
    }

    // The overflow is dropped rather than wrapping over earlier entries.
    assert_eq!(reg.len(), MAX_TRACKED);
    for i in 0..reg.len() {
        let hook = reg.get(i).displaced(0).map(|(ours, _)| ours);
        assert_eq!(hook, Some(OUR_HOOK + i as u32), "entry {i}");
    }
}

#[test]
fn records_keep_their_first_slot() {
    let mut record = InstallRecord::new("TestImport");
    assert!(record.set(0x10, OUR_HOOK));
    assert!(!record.set(0x20, FOREIGN_HOOK));
    assert_eq!(record.recorded_slot(), Some(0x10));
    assert_eq!(record.name(), "TestImport");
}

#[test]
fn audits_report_displaced_hooks_once() {
    let mut reg = Registry::new();
    reg.record(installed_record(0x10, OUR_HOOK));
    reg.record(installed_record(0x20, OUR_HOOK));
    let report = reg.audit_installed(&[OUR_HOOK, FOREIGN_HOOK]).unwrap();
    assert_eq!(report.total, 2);
    assert_eq!(report.displaced.len(), 1);
    assert_eq!(report.displaced[0].seen, FOREIGN_HOOK);
    assert!(reg.audit_installed(&[OUR_HOOK, FOREIGN_HOOK]).is_none());
}

fn put(image: &mut [u8], at: usize, v: u32) {
    image[at..at + 4].copy_from_slice(&v.to_le_bytes());
}

/// A mapped image that imports `Present` by ordinal and name, `ReadFile` from a second
/// module, and has a descriptor without a lookup table between the two.
fn mapped_image() -> Vec<u8> {
    let mut image = vec![0u8; 0x600];
    image[..2].copy_from_slice(b"MZ");
    put(&mut image, 0x3c, 0x80);
    put(&mut image, 0x80, 0x4550);
    put(&mut image, 0x80 + 120 + 8, 0x200);
    put(&mut image, 0x80 + 120 + 12, 80);
    // Descriptors at 0x200: lookup table, name, address table.
    for (i, (lookup, table)) in [(0x300, 0x400), (0, 0x420), (0x340, 0x440)].iter().enumerate() {
        put(&mut image, 0x200 + 20 * i, *lookup);
        put(&mut image, 0x200 + 20 * i + 12, 0x2c0);
        put(&mut image, 0x200 + 20 * i + 16, *table);
    }
    put(&mut image, 0x300, 0x8000_0007);
    put(&mut image, 0x304, 0x500);
    put(&mut image, 0x340, 0x520);
    image[0x502..0x50a].copy_from_slice(b"Present\0");
    image[0x522..0x52b].copy_from_slice(b"ReadFile\0");
    put(&mut image, 0x404, 0x7000_0000);
    put(&mut image, 0x440, 0x7100_0000);
    image
}

#[test]
fn imports_are_found_by_name() {
    let image = mapped_image();
    assert_eq!(data_directory(&image, 1), Some((0x200, 80)));
    assert_eq!(find_iat_slot(&image, b"present"), SlotOutcome::Hit { slot: 0x404 });
    assert_eq!(find_iat_slot(&image, b"READFILE"), SlotOutcome::Hit { slot: 0x440 });
    assert_eq!(
        find_iat_slot(&image, b"WriteFile"),
        SlotOutcome::Miss { descriptors: 1 }
    );
    assert_eq!(find_iat_slot(&image[..0x40], b"present"), SlotOutcome::Miss { descriptors: 0 });
    let mut negative = image.clone();
    put(&mut negative, 0x3c, 0xffff_fff0);
    assert_eq!(data_directory(&negative, 1), None);
}

#[test]
fn import_hooks_chain_to_the_original() {
    let mut image = mapped_image();
    let mut reg = Registry::new();
    let mut hook = IatHook::new("Present", "REAL_PRESENT");
    assert_eq!(hook.try_original(), None);
    let base = 0x40_0000;
    let status = hook.install(&mut image, base, OUR_HOOK, true, &mut reg);
    assert_eq!(status, HookStatus::Installed(Recording::Kept));
    assert!(status.hooked());
    assert_eq!(hook.original(), 0x7000_0000);
    assert_eq!(&image[0x404..0x408], &OUR_HOOK.to_le_bytes());
    assert_eq!(reg.len(), 1);
    assert_eq!(reg.get(0).recorded_slot(), Some(base + 0x404));
    // Installing again changes nothing.
    let before = image.clone();
    let status = hook.install(&mut image, base, OUR_HOOK, true, &mut reg);
    assert_eq!(status, HookStatus::AlreadyOurs);
    assert_eq!(image, before);
    assert_eq!(reg.len(), 1);
    // Somebody else rebound the slot.
    put(&mut image, 0x404, FOREIGN_HOOK);
    let status = hook.install(&mut image, base, OUR_HOOK, true, &mut reg);
    assert_eq!(
        status,
        HookStatus::Refused { kept: 0x7000_0000, seen: FOREIGN_HOOK }
    );
    assert!(!status.hooked());
}

#[test]
fn import_hooks_keep_their_first_record() {
    let mut reg = Registry::new();
    let mut hook = IatHook::new("Present", "REAL_PRESENT");
    assert_eq!(
        hook.finish_install(0x40_0404, OUR_HOOK, true, &mut reg),
        HookStatus::Installed(Recording::Kept)
    );
    // The same hook at another slot is written, but not recorded.
    let status = hook.finish_install(0x50_0404, OUR_HOOK, true, &mut reg);
    assert_eq!(
        status,
        HookStatus::Installed(Recording::Conflict { kept: 0x40_0404, seen: 0x50_0404 })
    );
    assert!(status.hooked());
    assert_eq!(reg.len(), 1);
    assert_eq!(reg.get(0).recorded_slot(), Some(0x40_0404));
    while reg.record(InstallRecord::new("filler")) {}
    let full = reg.len();
    let mut late = IatHook::new("ReadFile", "REAL_READ_FILE");
    assert_eq!(
        late.finish_install(0x40_0440, OUR_HOOK, true, &mut reg),
        HookStatus::Installed(Recording::PoolFull)
    );
    assert_eq!(reg.len(), full);
}

#[test]
fn import_hooks_that_cannot_go_in() {
    let mut reg = Registry::new();
    let mut image = mapped_image();
    let mut missing = IatHook::new("WriteFile", "REAL_WRITE_FILE");
    assert_eq!(
        missing.install(&mut image, 0x40_0000, OUR_HOOK, true, &mut reg),
        HookStatus::NotImported { descriptors: 1 }
    );
    let mut locked = IatHook::new("ReadFile", "REAL_READ_FILE");
    assert_eq!(
        locked.install(&mut image, 0x40_0000, OUR_HOOK, false, &mut reg),
        HookStatus::ProtectFailed
    );
    let mut null = IatHook::new("Present", "REAL_PRESENT");
    put(&mut image, 0x404, 0);
    assert_eq!(
        null.install(&mut image, 0x40_0000, OUR_HOOK, true, &mut reg),
        HookStatus::NullSlot
    );
    assert_eq!(reg.len(), 0);
}

#[test]
fn convert_pov_directions() {
    // The four cardinals and the four diagonals sitting on the boundaries where two cardinal ranges meet.
    // The input axes are nonzero throughout, so every row also proves the game's originals get overwritten.
    for (pov, expected) in [
        (0, (0, i32::MIN)),            // N
        (4500, (i32::MAX, i32::MIN)),  // NE
        (9000, (i32::MAX, 0)),         // E
        (13500, (i32::MAX, i32::MAX)), // SE
        (18000, (0, i32::MAX)),        // S
        (22500, (i32::MIN, i32::MAX)), // SW
        (27000, (i32::MIN, 0)),        // W
        (31500, (i32::MIN, i32::MIN)), // NW
    ] {
        assert_eq!(convert_pov(pov, 12345, -6789), expected, "pov={pov}");
    }
}

#[test]
fn convert_pov_centered_passes_axes_through() {
    for centered in [0xffff_ffffu32, 0xffff, 36000, 99999] {
        assert_eq!(
            convert_pov(centered, 123, -456),
            (123, -456),
            "pov={centered:#x}",
        );
    }
    // Extreme axis values survive the pass-through untouched.
    assert_eq!(
        convert_pov(u32::MAX, i32::MIN, i32::MIN),
        (i32::MIN, i32::MIN),
    );
}

#[test]
fn convert_pov_just_before_diagonal_is_cardinal() {
    assert_eq!(convert_pov(4499, 100, 200), (0, i32::MIN));
    assert_eq!(convert_pov(4501, 100, 200), (i32::MAX, 0));
}

#[test]
fn joystick_states_are_converted_in_place() {
    let mut state = vec![0u8; 80];
    state[0..4].copy_from_slice(&5i32.to_le_bytes());
    state[32..36].copy_from_slice(&9000u32.to_le_bytes());
    assert_eq!(hook_get_device_state(0, &mut state), 0);
    assert_eq!(&state[0..4], &i32::MAX.to_le_bytes());
    assert_eq!(&state[4..8], &0i32.to_le_bytes());
    // A failed read is handed on as it is.
    let mut failed = vec![0u8; 80];
    assert_eq!(hook_get_device_state(-1, &mut failed), -1);
    assert_eq!(failed, vec![0u8; 80]);
    // A keyboard state has another size.
    let mut keys = vec![0u8; 256];
    assert_eq!(hook_get_device_state(0, &mut keys), 0);
    assert_eq!(keys, vec![0u8; 256]);
    assert_eq!(created_device(0, Some(0x10)), NonZeroUsize::new(0x10));
    assert_eq!(created_device(0, Some(0)), None);
    assert_eq!(created_device(-1, Some(0x10)), None);
    assert_eq!(created_device(0, None), None);
}

const CREATE_ALWAYS: u32 = 2;
const OPEN_ALWAYS: u32 = 4;
const ERROR_ACCESS_DENIED: u32 = 5;
const ERROR_SHARING_VIOLATION: u32 = 32;

#[test]
fn create_file_fallback() {
    // Fall back when reading an existing file whose converted name isn't found.
    assert!(should_fall_back(OPEN_EXISTING, ERROR_FILE_NOT_FOUND));
    assert!(should_fall_back(OPEN_EXISTING, ERROR_PATH_NOT_FOUND));
    // Don't fall back when it would create a mojibake-named file.
    assert!(!should_fall_back(CREATE_ALWAYS, ERROR_FILE_NOT_FOUND));
    assert!(!should_fall_back(OPEN_ALWAYS, ERROR_FILE_NOT_FOUND));
    assert!(!should_fall_back(OPEN_EXISTING, ERROR_SHARING_VIOLATION));
}

#[test]
fn delete_fallback() {
    assert!(is_not_found(ERROR_FILE_NOT_FOUND));
    assert!(is_not_found(ERROR_PATH_NOT_FOUND));
    assert!(!is_not_found(ERROR_ACCESS_DENIED));
    assert!(!is_not_found(ERROR_SHARING_VIOLATION));
}

const FONT_SJIS: &[u8] = &[
    0x82, 0x6c, 0x82, 0x72, 0x20, 0x83, 0x53, 0x83, 0x56, 0x83, 0x62, 0x83, 0x4e,
];
const FONT_WIDE: &[u16] = &[0xff2d, 0xff33, 0x20, 0x30b4, 0x30b7, 0x30c3, 0x30af, 0];

#[test]
fn logfont_conversion_works() {
    let mut a = LogFontA {
        head: LogFontHead {
            height: -16,
            width: 0,
            escapement: 0,
            orientation: 0,
            weight: 700,
            italic: 0,
            underline: 0,
            strike_out: 0,
            char_set: 128,
            out_precision: 0,
            clip_precision: 0,
            quality: 4,
            pitch_and_family: 0x31,
        },
        face: [0; 32],
    };
    a.face[..FONT_SJIS.len()].copy_from_slice(FONT_SJIS);
    assert_eq!(face_name(&a), FONT_SJIS);
    let w = convert_logfont(&a, Some(FONT_WIDE.to_vec())).unwrap();
    assert_eq!(w.head.height, -16);
    assert_eq!(w.head.weight, 700);
    assert_eq!(w.head.char_set, 128);
    assert_eq!(w.head.quality, 4);
    assert_eq!(w.head.pitch_and_family, 0x31);
    assert_eq!(&w.face[..FONT_WIDE.len()], FONT_WIDE);
    assert!(convert_logfont(&a, None).is_none());
    // A face that fills the field is cut, and still terminated.
    let long = convert_logfont(&a, Some(vec![0x41; 40])).unwrap();
    assert_eq!((long.face[30], long.face[31]), (0x41, 0));
}

#[test]
fn conversions_ask_the_system_once() {
    let strict = wide_request(b"ab", true).unwrap();
    assert_eq!((strict.flags, strict.len), (8, 2));
    let lax = wide_request(b"ab", false).unwrap();
    assert_eq!(lax.flags, 0);
    assert_eq!(finish_wide(vec![0x61, 0x62, 0, 0], 2), Some(vec![0x61, 0x62, 0]));
    assert_eq!(finish_wide(vec![0, 0], 0), None);
    let mut page = CodePage::new();
    assert_eq!(page.codepage(), None);
    page.install(NonZeroU32::new(CP_SHIFT_JIS).unwrap());
    assert_eq!(page.codepage(), NonZeroU32::new(932));
    let shift_jis = page.codepage();
    assert_eq!(convert_z(shift_jis, b"ab\0cd", 5), Some(b"ab".to_vec()));
    assert_eq!(convert_z(None, b"ab\0cd", 5), None);
    assert_eq!(convert_z(shift_jis, b"abcd", 4), None);
}

#[test]
fn file_hooks_fall_back_to_the_original() {
    assert_eq!(hook_create_file_a(None, OPEN_EXISTING), HookNext::CallReal);
    assert_eq!(hook_create_file_a(Some(Ok(())), OPEN_EXISTING), HookNext::ReturnWide);
    assert_eq!(
        hook_create_file_a(Some(Err(ERROR_FILE_NOT_FOUND)), OPEN_EXISTING),
        HookNext::CallReal
    );
    assert_eq!(
        hook_create_file_a(Some(Err(ERROR_FILE_NOT_FOUND)), CREATE_ALWAYS),
        HookNext::Fail { error: ERROR_FILE_NOT_FOUND }
    );
    assert_eq!(
        hook_delete_file_a(Some(Err(ERROR_ACCESS_DENIED))),
        HookNext::Fail { error: ERROR_ACCESS_DENIED }
    );
    assert_eq!(
        hook_delete_file_a(Some(Err(ERROR_PATH_NOT_FOUND))),
        HookNext::CallReal
    );
    assert_eq!(hook_create_font(Some(0x10)), HookNext::ReturnWide);
    assert_eq!(hook_create_font(Some(0)), HookNext::CallReal);
    assert_eq!(hook_create_font(None), HookNext::CallReal);
}

#[test]
fn text_widening() {
    const EMPTY_WIDE: &[u16] = &[0];
    const ASCII_WIDE: &[u16] = &[0x6f, 0x6f, 0x70, 0x73, 0];
    const TEXT_SHIFT_JIS: &[u8] = &[0x93, 0x8c, 0x95, 0xfb];
    const TEXT_WIDE: &[u16] = &[0x6771, 0x65b9, 0];

    // (label, input, whether it needs the W path, widened form)
    let cases: [(&str, Option<&[u8]>, bool, Option<&[u16]>); 4] = [
        ("null", None, false, None),
        ("empty", Some(b""), false, Some(EMPTY_WIDE)),
        ("ASCII", Some(b"oops"), false, Some(ASCII_WIDE)),
        ("Shift-JIS", Some(TEXT_SHIFT_JIS), true, Some(TEXT_WIDE)),
    ];

    for (label, p, non_ascii, expected) in cases {
        assert_eq!(has_non_ascii(p), non_ascii, "{label}");

        let side = widen(p, Some(TEXT_WIDE.to_vec())).unwrap();
        assert_eq!(side.as_deref(), expected, "{label}");
    }
    assert!(widen(Some(TEXT_SHIFT_JIS), None).is_err());
}

#[test]
fn half_converted_boxes_are_not_shown() {
    let page = NonZeroU32::new(932);
    let sjis: &[u8] = &[0x93, 0x8c];
    assert!(wants_wide(page, Some(sjis), None));
    assert!(wants_wide(page, Some(b"oops"), Some(sjis)));
    assert!(!wants_wide(page, Some(b"oops"), None));
    assert!(!wants_wide(None, Some(sjis), None));
    assert!(try_show_wide(Ok(Some(vec![0x41, 0])), Err(())).is_none());
    let shown = try_show_wide(Ok(Some(vec![0x41, 0])), Ok(None)).unwrap();
    assert_eq!(shown.text, Some(vec![0x41, 0]));
    assert_eq!(shown.caption, None);
}

#[test]
fn logged_texts_are_decoded() {
    assert_eq!(wide_log_string(Some(&[0x6771, 0x65b9, 0])), "\u{6771}\u{65b9}");
    assert_eq!(wide_log_string(Some(&[0xd800])), "\u{fffd}");
    assert_eq!(wide_log_string(None), "<null>");
    assert_eq!(pcstr_to_string(Some(b"a\xff")), "a\u{fffd}");
    assert_eq!(pcstr_to_string(None), "<null>");
    assert_eq!(pcwstr_to_string(Some(&[0x41, 0xdc00])), "A\u{fffd}");
    assert_eq!(pcwstr_to_string(None), "<null>");
}

#[test]
fn untrusted_reads_stop_where_memory_does() {
    let mut buf: Vec<u16> = vec![1, 2, 3, 4];
    // Five bytes arrived: two units and a half.
    assert_eq!(safe_read(&mut buf, 5, 2), 2);
    assert_eq!(buf, [1, 2, 0, 4]);
    assert_eq!(safe_read_until(&[1u8, 2, 0, 3], 4, 0), vec![1, 2]);
    assert_eq!(safe_read_until(&[1u8, 2, 3], 2, 0), vec![1, 2]);
    assert_eq!(safe_read_terminated(&[1u8, 2, 0, 3], 4, 0), Some(vec![1, 2]));
    assert_eq!(safe_read_terminated(&[1u8, 2, 3], 3, 0), None);
    assert!(matches_nul_terminated(b"BASE\0", 5, b"BASE"));
    assert!(!matches_nul_terminated(b"BASE\0", 4, b"BASE"));
}

#[test]
fn fpo_seh_prologue_encodes_push_minus_1_then_push_imm32_le() {
    // th11 and th12's actual SEH handler addresses.
    assert_eq!(
        fpo_seh_prologue(0x0048_a686),
        [0x6a, 0xff, 0x68, 0x86, 0xa6, 0x48, 0x00],
        "th11 SEH handler",
    );
    assert_eq!(
        fpo_seh_prologue(0x0049_7336),
        [0x6a, 0xff, 0x68, 0x36, 0x73, 0x49, 0x00],
        "th12 SEH handler",
    );
    // Byte 0..3 is the fixed `push -1; push imm32` opcode prefix.
    // Byte 3..7 is the input's little-endian encoding.
    for h in [0u32, 1, 0x1234_5678, 0xabab_abab, 0xffff_ffff] {
        let p = fpo_seh_prologue(h);
        assert_eq!(&p[0..3], &[0x6a, 0xff, 0x68], "opcode prefix for {h:#x}");
        assert_eq!(&p[3..7], &h.to_le_bytes(), "imm32 LE for {h:#x}");
    }
}

#[test]
fn pumps_drive_while_the_loader_runs() {
    let run = pump(0x10, &[WAIT_TIMEOUT, WAIT_TIMEOUT, WAIT_OBJECT_0]).unwrap();
    assert_eq!((run.waits, run.drives), (3, 2));
    assert!(run.drained);
    let none = pump(0, &[]).unwrap();
    assert_eq!((none.waits, none.drives), (0, 0));
    // Results for a loader that never ends run out.
    assert!(pump(0x10, &[WAIT_TIMEOUT]).is_none());
    let failed = pump(0x10, &[0xffff_ffff]).unwrap();
    assert!(!failed.drained);
    let (mut pump, step) = Pump::start(0x10);
    assert!(matches!(step, PumpStep::Wait { .. }));
    let _ = pump.waited(WAIT_TIMEOUT);
    assert_eq!(pump.iters(), 1);
}

#[test]
fn destructors_are_entered_through_their_convention() {
    let entries = Entries { thiscall: 0x1000, thiscall_ret4: 0x2000, stdcall: 0x3000 };
    let cfg = |hook| Config {
        dtor_addr: 0x40_0000,
        hook,
        anim_driver_addr: 0x40_1000,
        loader_handle_offset: 8,
        dtor_label: "Dtor",
    };
    let plan = install(&cfg(Hook::EbpFrameThiscall(0x10)), entries, 4);
    assert_eq!(plan.patch_name, "Dtor entry-jmp -> destructor_pump::pump_entry_thiscall");
    assert_eq!(plan.site.written_bytes().len(), 5);
    let fpo = Hook::FpoStdcall { trampoline: 0x20, seh_handler: 0x48_a686 };
    let plan = install(&cfg(fpo), entries, 4);
    assert_eq!(plan.patch_name, "Dtor entry-jmp -> destructor_pump::pump_entry_stdcall");
    assert_eq!(&plan.site.written_bytes()[5..], &[0x90, 0x90]);
    assert_eq!(fpo.trampoline(), (0x20, None));
    assert_eq!(Hook::EbpFrameThiscallRet4(0x30).trampoline(), (0x30, Some(0)));
}
