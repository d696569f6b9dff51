//! Frameskip in configuration files.

use neopatch_core::cfg_pin::{
    identify_cfg_handle, identify_cfg_handle_again, install, is_cfg_path, write_back_ok, ByteField,
    CfgCheck, CfgDefect, CfgFile, CfgPin, Identity, PathQuery, ReadVerdict,
    ERROR_INSUFFICIENT_BUFFER, MAX_PATH_LEN,
};

fn cfg() -> CfgFile {
    CfgFile {
        file_name: "game.cfg",
        magic: 0xfee1_900d,
        size: 0x40,
        frameskip: ByteField {
            offset: 0x20,
            bound: 3,
        },
        other_checks: vec![CfgCheck::byte_max(0x1c, 2), CfgCheck::byte_max(0x21, 3)],
    }
}

fn wide() -> CfgFile {
    CfgFile {
        file_name: "wide.cfg",
        magic: 0x0abc_0001,
        size: 0x30,
        frameskip: ByteField {
            offset: 0x10,
            bound: 3,
        },
        other_checks: vec![CfgCheck::dword_eq(0x4, 0x30), CfgCheck::sdword_max(0x8, 10)],
    }
}

fn to_wide(s: &str) -> Vec<u16> {
    s.encode_utf16().collect()
}

fn image(cfg: &CfgFile, frameskip: u8) -> Vec<u8> {
    let mut bytes = vec![0u8; cfg.size as usize];
    bytes[..4].copy_from_slice(&cfg.magic.to_le_bytes());
    for check in &cfg.other_checks {
        if let CfgCheck::DwordEq { offset, value } = *check {
            bytes[offset as usize..offset as usize + 4].copy_from_slice(&value.to_le_bytes());
        }
    }
    bytes[cfg.frameskip.offset as usize] = frameskip;
    bytes
}

#[test]
fn cfg_path_checking() {
    for path in [
        "game.cfg",
        "GAME.CFG",
        r"C:\users\user\AppData\Roaming\ShanghaiAlice\game\game.cfg",
        r"\\?\Z:\games\game\game.cfg",
        "./game.cfg",
    ] {
        assert!(is_cfg_path(&to_wide(path), cfg().file_name), "{path}");
    }
    for path in ["xgame.cfg", "game.cfg.bak", "game.cf", "score.dat", ""] {
        assert!(!is_cfg_path(&to_wide(path), cfg().file_name), "{path}");
    }
}

#[test]
fn magic_gate() {
    assert!(cfg().has_magic(&image(&cfg(), 0)));
    let mut wrong = image(&cfg(), 0);
    wrong[0] ^= 0xff;
    assert!(!cfg().has_magic(&wrong));
    assert!(!cfg().has_magic(&[]));
}

#[test]
fn only_force_validator_accepted_values() {
    assert_eq!(cfg().read_verdict(&image(&cfg(), 0)), ReadVerdict::AlreadyOff);
    assert_eq!(cfg().read_verdict(&image(&cfg(), 1)), ReadVerdict::Force(1));
    assert_eq!(cfg().read_verdict(&image(&cfg(), 2)), ReadVerdict::Force(2));
    assert_eq!(
        cfg().read_verdict(&image(&cfg(), 3)),
        ReadVerdict::Reject { offset: 0x20 }
    );
    assert_eq!(
        cfg().read_verdict(&image(&cfg(), 0xff)),
        ReadVerdict::Reject { offset: 0x20 }
    );
}

#[test]
fn reject_force_if_check_fails() {
    let mut bad_other_field = image(&cfg(), 2);
    bad_other_field[0x1c] = 2;
    assert_eq!(
        cfg().read_verdict(&bad_other_field),
        ReadVerdict::Reject { offset: 0x1c }
    );
}

#[test]
fn sdword_max_check() {
    let mut negative = image(&wide(), 2);
    negative[0x8..0xc].copy_from_slice(&(-1i32).to_le_bytes());
    assert_eq!(wide().read_verdict(&negative), ReadVerdict::Force(2));

    let mut low_byte_small = image(&wide(), 2);
    low_byte_small[0x8..0xc].copy_from_slice(&0x0000_0105u32.to_le_bytes());
    assert_eq!(
        wide().read_verdict(&low_byte_small),
        ReadVerdict::Reject { offset: 0x8 }
    );
}

#[test]
fn dword_eq_check() {
    let mut wrong_header = image(&wide(), 2);
    wrong_header[0x4] = 0x31;
    assert_eq!(
        wide().read_verdict(&wrong_header),
        ReadVerdict::Reject { offset: 0x4 }
    );
}

#[test]
fn write_back_restore_frameskip_only() {
    let mut forced = image(&cfg(), 2);
    forced[cfg().frameskip.offset as usize] = 0;
    forced[5] = 0xab;

    let mut restored = forced.clone();
    cfg().restore_in_place(&mut restored, 2).unwrap();

    let mut expected = forced;
    expected[cfg().frameskip.offset as usize] = 2;
    assert_eq!(restored, expected);
}

#[test]
fn write_back_preserve_bytes_changed_by_game() {
    assert_eq!(
        cfg().restore_in_place(&mut image(&cfg(), 1), 2),
        Err("byte_not_forced")
    );
}

#[test]
fn formats_are_validated() {
    assert_eq!(cfg().validate(), Ok(()));
    assert_eq!(wide().validate(), Ok(()));
    let mut small = cfg();
    small.size = 3;
    assert_eq!(small.validate(), Err(CfgDefect::TooSmall));
    let mut outside = cfg();
    outside.frameskip.offset = 0x40;
    assert_eq!(outside.validate(), Err(CfgDefect::FrameskipOutside));
    let mut check = cfg();
    check.other_checks.push(CfgCheck::dword_eq(0x3d, 0));
    assert_eq!(check.validate(), Err(CfgDefect::CheckOutside(2)));
    let mut edge = cfg();
    edge.other_checks.push(CfgCheck::dword_eq(0x3c, 0));
    assert_eq!(edge.validate(), Ok(()));
    let mut far = cfg();
    far.other_checks.push(CfgCheck::sdword_max(u32::MAX, 0));
    assert_eq!(far.validate(), Err(CfgDefect::CheckOutside(2)));
}

#[test]
fn restoring_undoes_forcing() {
    let mut pin = install(true, true, cfg()).unwrap();
    let saved = image(&cfg(), 2);
    let mut loaded = saved.clone();
    assert!(pin.hook_read_file(true, false, 0x40, Some(0x40), &loaded));
    assert_eq!(
        pin.force_frameskip(Identity::Cfg, &mut loaded),
        Some(ReadVerdict::Force(2))
    );
    assert_eq!(loaded[0x20], 0);
    assert!(pin.wants_write(false, true, 0x40));
    let plan = pin.hook_write_file(Some(loaded), Identity::Cfg);
    assert_eq!(plan.image, Some(saved));
    assert_eq!(plan.skipped, None);
    assert!(!plan.first_write_diverged);
}

#[test]
fn hooks_go_in_together() {
    assert!(install(true, false, cfg()).is_none());
    assert!(install(false, true, cfg()).is_none());
}

#[test]
fn only_whole_images_are_looked_at() {
    let pin = CfgPin::new(cfg());
    let bytes = image(&cfg(), 1);
    assert!(pin.hook_read_file(true, false, 0x100, Some(0x40), &bytes));
    assert!(!pin.hook_read_file(false, false, 0x40, Some(0x40), &bytes));
    assert!(!pin.hook_read_file(true, true, 0x40, Some(0x40), &bytes));
    assert!(!pin.hook_read_file(true, false, 0x3f, Some(0x3f), &bytes));
    assert!(!pin.hook_read_file(true, false, 0x40, None, &bytes));
    assert!(!pin.hook_read_file(true, false, 0x40, Some(0x3f), &bytes));
    // Nothing was forced yet.
    assert!(!pin.wants_write(false, true, 0x40));
}

#[test]
fn other_files_are_left_alone() {
    let mut pin = CfgPin::new(cfg());
    let mut bytes = image(&cfg(), 1);
    assert_eq!(pin.force_frameskip(Identity::Other, &mut bytes), None);
    assert_eq!(pin.force_frameskip(Identity::Unknown { error: 5 }, &mut bytes), None);
    assert_eq!(bytes[0x20], 1);
    pin.force_frameskip(Identity::Cfg, &mut bytes);
    let plan = pin.hook_write_file(Some(bytes.clone()), Identity::Other);
    assert_eq!(plan.image, None);
    assert_eq!(plan.skipped, None);
    // The system does not know the file: the image's size and magic are evidence enough.
    let plan = pin.hook_write_file(Some(bytes), Identity::Unknown { error: 5 });
    assert_eq!(plan.image.unwrap()[0x20], 1);
    let plan = pin.hook_write_file(None, Identity::Cfg);
    assert_eq!(plan.skipped, Some("unreadable_buffer"));
}

#[test]
fn the_first_write_is_compared_once() {
    let mut pin = CfgPin::new(cfg());
    let mut bytes = image(&cfg(), 1);
    pin.force_frameskip(Identity::Cfg, &mut bytes);
    bytes[5] ^= 1;
    assert!(pin.hook_write_file(Some(bytes.clone()), Identity::Cfg).first_write_diverged);
    assert!(!pin.hook_write_file(Some(bytes), Identity::Cfg).first_write_diverged);
}

#[test]
fn paths_are_asked_for_twice_at_most() {
    let mut buf = vec![0u16; MAX_PATH_LEN as usize];
    let path = to_wide(r"C:\GAME.cfg");
    buf[..path.len()].copy_from_slice(&path);
    assert_eq!(
        identify_cfg_handle(path.len() as u32, 0, &buf, &cfg()),
        PathQuery::Done(Identity::Cfg)
    );
    assert_eq!(
        identify_cfg_handle(path.len() as u32 - 1, 0, &buf, &cfg()),
        PathQuery::Done(Identity::Other)
    );
    assert_eq!(
        identify_cfg_handle(0, 6, &buf, &cfg()),
        PathQuery::Done(Identity::Unknown { error: 6 })
    );
    assert_eq!(
        identify_cfg_handle(400, 0, &buf, &cfg()),
        PathQuery::Retry { capacity: 400 }
    );
    let mut long = vec![0x78u16; 400];
    let at = 399 - path.len();
    long[at..399].copy_from_slice(&path);
    assert_eq!(identify_cfg_handle_again(399, 400, 0, &long, &cfg()), Identity::Cfg);
    assert_eq!(
        identify_cfg_handle_again(400, 400, 0, &long, &cfg()),
        Identity::Unknown { error: ERROR_INSUFFICIENT_BUFFER }
    );
    assert_eq!(
        identify_cfg_handle_again(0, 400, 6, &long, &cfg()),
        Identity::Unknown { error: 6 }
    );
}

#[test]
fn a_write_back_is_whole_or_failed() {
    assert!(write_back_ok(1, true, Some(0x40), 0x40));
    assert!(write_back_ok(1, false, None, 0x40));
    assert!(!write_back_ok(1, true, Some(0x3f), 0x40));
    assert!(!write_back_ok(1, true, None, 0x40));
    assert!(!write_back_ok(0, true, Some(0x40), 0x40));
}
