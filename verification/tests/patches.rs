//! Byte patches: what is written, and when nothing is.

use neopatch_core::bytes::read_u32;
use neopatch_core::patches::{
    bytes_hex, install_all, install_step, sites_hold, HostImage, InstallOutcome, InstallStep,
    PatchSite, Preflight, SiteCheck,
};
use neopatch_core::{d3d8, d3d9_hooks};

const BASE: u32 = 0x40_0000;
const A: u32 = BASE;
const B: u32 = BASE + 2;

fn image(bytes: &[u8]) -> HostImage {
    HostImage {
        base: BASE,
        bytes: bytes.to_vec(),
    }
}

fn all_held(report: &Preflight) -> bool {
    report.held == report.total && report.first_mismatch.is_none()
}

#[test]
fn written_bytes_replace() {
    let site = PatchSite::replace(0x1000, &[0x74, 0x11], &[0xeb, 0x11], "test");
    assert_eq!(site.written_bytes(), &[0xeb, 0x11]);
}

#[test]
fn written_bytes_jmp() {
    let site = PatchSite::jmp(
        0x2000,
        &[0x0f, 0x8f, 0x00, 0x00, 0x00, 0x00],
        0x1000,
        "test",
    );
    assert_eq!(
        site.written_bytes(),
        &[0xe9, 0xfb, 0xef, 0xff, 0xff, 0x90]
    );
}

#[test]
fn written_bytes_call() {
    let site = PatchSite::call(
        0x1000,
        &[0xff, 0x15, 0x00, 0x00, 0x00, 0x00],
        0x2000,
        "test",
    );

    assert_eq!(
        site.written_bytes(),
        &[0xe8, 0xfb, 0x0f, 0x00, 0x00, 0x90]
    );
}

#[test]
fn sites_hold_accept_matching_sites() {
    let host = image(&[0x74, 0x11, 0x75, 0x22]);

    let first = [PatchSite::replace(A, &[0x74, 0x11], &[0xeb, 0x11], "a")];
    let second = [PatchSite::nop(B, &[0x75, 0x22], "b")];

    assert!(all_held(&sites_hold(&[&first, &second], &host)));
    assert_eq!(host.bytes, [0x74, 0x11, 0x75, 0x22]);
}

#[test]
fn sites_hold_reject_site_drifted() {
    let host = image(&[0x74, 0x11]);

    let sites = [
        PatchSite::replace(A, &[0x74, 0x11], &[0xeb, 0x11], "works"),
        PatchSite::replace(0x1000, &[0x74], &[0xeb], "out of image"),
    ];

    let report = sites_hold(&[&sites], &host);
    assert!(!all_held(&report));
    assert_eq!((report.held, report.total), (1, 2));
    assert_eq!(report.first_mismatch, Some(1));
    assert_eq!(sites[1].holds_expected(&host), SiteCheck::OutOfImage);
    assert_eq!(host.bytes, [0x74, 0x11]);
}

#[test]
fn sites_hold_reject_bytes_drifted() {
    let host = image(&[0x74, 0x11, 0x90, 0x90]);

    let sites = [
        PatchSite::replace(A, &[0x74, 0x11], &[0xeb, 0x11], "works"),
        PatchSite::replace(B, &[0x74, 0x11], &[0xeb, 0x11], "drifted"),
    ];

    assert!(!all_held(&sites_hold(&[&sites], &host)));
    assert_eq!(sites[1].holds_expected(&host), SiteCheck::Drifted);
    assert_eq!(host.bytes, [0x74, 0x11, 0x90, 0x90]);
}

#[test]
fn install_all_accept() {
    let mut host = image(&[0x74, 0x11, 0x75, 0x22]);

    let first = [PatchSite::replace(A, &[0x74, 0x11], &[0xeb, 0x11], "a")];
    let second = [PatchSite::nop(B, &[0x75, 0x22], "b")];

    assert_eq!(
        install_all(&[&first, &second], &mut host, &[true, true]),
        InstallOutcome::Installed
    );
    assert_eq!(host.bytes, [0xeb, 0x11, 0x90, 0x90]);
}

#[test]
fn install_all_reject() {
    let mut host = image(&[0x74, 0x11, 0x90, 0x90]);

    let sites = [
        PatchSite::replace(A, &[0x74, 0x11], &[0xeb, 0x11], "works"),
        PatchSite::replace(B, &[0x74, 0x11], &[0xeb, 0x11], "drifted"),
    ];

    assert_eq!(
        install_all(&[&sites], &mut host, &[true, true]),
        InstallOutcome::Refused
    );
    assert_eq!(host.bytes, [0x74, 0x11, 0x90, 0x90]);
}

#[test]
fn install_all_leaves_the_bytes_between_sites() {
    let mut host = image(&[0x74, 0x11, 0xcc, 0xcd, 0x75, 0x22, 0xce]);
    let sites = [
        PatchSite::replace(BASE + 4, &[0x75, 0x22], &[0xeb, 0x33], "later"),
        PatchSite::nop(A, &[0x74, 0x11], "earlier"),
    ];
    assert_eq!(
        install_all(&[&sites], &mut host, &[true, true]),
        InstallOutcome::Installed
    );
    assert_eq!(host.bytes, [0x90, 0x90, 0xcc, 0xcd, 0xeb, 0x33, 0xce]);
    // The replaced bytes no longer stand there, so a second installation is refused.
    let again = sites_hold(&[&sites], &host);
    assert_eq!((again.held, again.first_mismatch), (0, Some(0)));
    assert_eq!(
        install_all(&[&sites], &mut host, &[true, true]),
        InstallOutcome::Refused
    );
    assert_eq!(host.bytes, [0x90, 0x90, 0xcc, 0xcd, 0xeb, 0x33, 0xce]);
}

#[test]
fn install_all_stops_at_a_failed_write() {
    let mut host = image(&[0x74, 0x11, 0x75, 0x22]);
    let sites = [
        PatchSite::replace(A, &[0x74, 0x11], &[0xeb, 0x11], "a"),
        PatchSite::nop(B, &[0x75, 0x22], "b"),
    ];
    assert_eq!(
        install_all(&[&sites], &mut host, &[true, false]),
        InstallOutcome::Partial(1)
    );
    assert_eq!(host.bytes, [0xeb, 0x11, 0x75, 0x22]);
}

#[test]
fn install_steps_end_with_the_last_site() {
    assert_eq!(install_step(0, 2, true), InstallStep::Next);
    assert_eq!(install_step(1, 2, true), InstallStep::Done(InstallOutcome::Installed));
    // Nothing was written before the first site.
    assert_eq!(install_step(0, 2, false), InstallStep::Done(InstallOutcome::Refused));
    assert_eq!(install_step(1, 2, false), InstallStep::Done(InstallOutcome::Partial(1)));
}

#[test]
fn branches_reach_their_destination() {
    for (addr, dest) in [(0x40_1000, 0x1000_0000), (0x1000_0000, 0x40_1000), (0x10, 0xffff_fff0)] {
        let site = PatchSite::jmp(addr, &[0x90; 7], dest, "far");
        let written = site.written_bytes();
        let rel = read_u32(&written, 1).unwrap();
        assert_eq!(addr.wrapping_add(5).wrapping_add(rel), dest);
        assert_eq!(&written[5..], &[0x90, 0x90]);
        let report = site.verify(&written, &written);
        assert!(report.ok);
        assert_eq!(report.resolved_target, Some(dest));
        let report = site.verify(&written, &[0x90; 7]);
        assert!(!report.ok);
    }
}

#[test]
fn rebased_sites_move_with_the_image() {
    let site = PatchSite::replace(0x40_1000, &[0x74], &[0xeb], "moved").rebase(0x1_0000);
    assert_eq!(site.site_addr(), 0x41_1000);
    assert_eq!(site.name(), "moved");
    // A branch still reaches its destination, which does not move.
    let call = PatchSite::call(0x1000, &[0x90; 5], 0x2000, "call").rebase(0x1000);
    assert_eq!(call.written_bytes(), &[0xe8, 0xfb, 0xff, 0xff, 0xff]);
}

#[test]
fn call_sites_are_rewritten_to_direct_calls() {
    let nine = d3d9_hooks::call_site_rewrite(0x1000, &[0xe8, 0, 0, 0, 0], 0x2000);
    assert_eq!(nine.written_bytes(), &[0xe8, 0xfb, 0x0f, 0x00, 0x00]);
    let eight = d3d8::call_site_rewrite(0x1000, &[0xff, 0x15, 0, 0, 0, 0], 0x2000);
    assert_eq!(eight.written_bytes(), &[0xe8, 0xfb, 0x0f, 0x00, 0x00, 0x90]);
    assert_eq!(eight.name(), "Direct3DCreate8 call-site rewrite");
}

#[test]
fn bytes_are_logged_as_hex() {
    assert_eq!(bytes_hex(&[]), "");
    assert_eq!(bytes_hex(&[0x0f, 0x8f]), "0f 8f");
}
