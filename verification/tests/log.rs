//! Sessions: their names, how many are kept, and where they go.

use neopatch_core::config::{CoreConfig, LevelFilter};
use neopatch_core::log::{
    apply_retention, claim_log_root, claim_session_dir, elapsed_ms, init, is_session_id,
    level_enabled, log_root_candidates, make_session_id, push_field, write_manifest, ClaimFailure,
    DirEntry, EventGuard, Level, LogRootOutcome, LogRootSearch, ManifestHead, SystemTime,
};
use neopatch_core::log_cap::LogCap;
use neopatch_core::nonzero::NonZeroU32;

#[test]
fn is_session_id_accepts_real_session_format() {
    assert!(is_session_id("20260516_123045_p1"));
    assert!(is_session_id("20260516_123045_p12345"));
    assert!(is_session_id("00000000_000000_p0"));
    assert!(is_session_id("99999999_999999_p4294967295"));
}

#[test]
fn is_session_id_rejects_unrelated_names() {
    assert!(!is_session_id(""));
    assert!(!is_session_id("important_data"));
    assert!(!is_session_id("20260516"));
    assert!(!is_session_id("20260516_12304"));
    assert!(!is_session_id("20260516_123045"));
    assert!(!is_session_id("20260516_1230450"));
    assert!(!is_session_id("20260516-123045"));
    assert!(!is_session_id("2026051a_123045"));
    assert!(!is_session_id("20260516_12304a"));
    assert!(!is_session_id("20260516_123045_p"));
    assert!(!is_session_id("20260516_123045-p1"));
    assert!(!is_session_id("20260516_123045_x1"));
    assert!(!is_session_id("20260516_123045_p1a"));
}

fn time(year: u16, second: u16) -> SystemTime {
    SystemTime {
        year,
        month: 5,
        day: 16,
        hour: 12,
        minute: 30,
        second,
    }
}

#[test]
fn session_ids_are_recognised_and_sort_by_time() {
    let id = make_session_id(time(2026, 45), 12345);
    assert_eq!(id, "20260516_123045_p12345");
    assert!(is_session_id(&id));
    assert!(make_session_id(time(2026, 9), u32::MAX) < make_session_id(time(2026, 10), 0));
    assert!(make_session_id(time(2025, 59), 1) < make_session_id(time(2026, 0), 1));
    // A year of five digits shifts every field.
    assert!(!is_session_id(&make_session_id(time(10000, 0), 1)));
}

fn chars(s: &str) -> Vec<char> {
    s.chars().collect()
}

#[test]
fn the_oldest_sessions_are_dropped() {
    let dir = |name: &str| DirEntry {
        name: chars(name),
        is_dir: true,
    };
    let mut entries = vec![
        dir("20260516_123045_p3"),
        dir("20260101_000000_p1"),
        dir("notes"),
        dir("20260301_000000_p2"),
        dir("20260517_000000_p9"),
    ];
    entries.push(DirEntry {
        name: chars("20200101_000000_p1"),
        is_dir: false,
    });
    let current = chars("20260517_000000_p9");
    // One of the two places goes to the current session.
    let kept_two = apply_retention(&entries, NonZeroU32::new(2).unwrap(), &current);
    assert_eq!(kept_two.remove, vec![1, 3]);
    assert_eq!(kept_two.kept, vec![0]);
    let kept_one = apply_retention(&entries, NonZeroU32::new(1).unwrap(), &current);
    assert_eq!(kept_one.remove, vec![1, 3, 0]);
    let all = apply_retention(&entries, NonZeroU32::new(10).unwrap(), &current);
    assert!(all.remove.is_empty());
    assert_eq!(all.kept, vec![1, 3, 0]);
}

#[test]
fn redirected_directories_are_refused() {
    let path = |parts: &[&str]| -> Vec<Vec<u8>> {
        parts.iter().map(|p| p.as_bytes().to_vec()).collect()
    };
    let plain = path(&["C:", "games", "neopatch_logs", "x"]);
    assert!(claim_session_dir(true, Some(&plain)).is_ok());
    assert_eq!(claim_session_dir(false, Some(&plain)), Err(ClaimFailure::Create));
    assert_eq!(claim_session_dir(true, None), Err(ClaimFailure::Canonicalize));
    let shadow = path(&["C:", "Users", "virtualSTORE", "x"]);
    assert_eq!(
        claim_session_dir(true, Some(&shadow)),
        Err(ClaimFailure::VirtualStore)
    );
}

#[test]
fn the_first_candidate_that_can_be_claimed_is_the_root() {
    let candidates = log_root_candidates(Some(false), false, true);
    assert_eq!(candidates.len(), 4);
    assert!(candidates[0].is_override && !candidates[0].empty);
    assert!(candidates[2].empty && !candidates[3].empty);
    let claims = vec![
        Err(ClaimFailure::Create),
        Err(ClaimFailure::VirtualStore),
        Ok(()),
        Ok(()),
    ];
    let (root, decisions) = claim_log_root(candidates, &claims);
    assert_eq!(root, Some(3));
    let outcomes: Vec<(usize, &str)> =
        decisions.iter().map(|d| (d.candidate, d.outcome.label())).collect();
    assert_eq!(
        outcomes,
        vec![
            (0, "override_create_failed"),
            (1, "virtualstore_redirected"),
            (3, "chosen"),
        ]
    );

    let mut search = LogRootSearch::start(log_root_candidates(None, false, false));
    assert_eq!(search.pending(), Some(0));
    search.record(Err(ClaimFailure::Canonicalize));
    assert_eq!(search.pending(), None);
    assert_eq!(search.choice(), None);
    assert_eq!(search.decisions()[0].outcome, LogRootOutcome::CanonicalizeFailed);
}

#[test]
fn outcomes_are_labelled() {
    for (outcome, label, success) in [
        (LogRootOutcome::Chosen, "chosen", true),
        (LogRootOutcome::ChosenOverride, "chosen_override", true),
        (LogRootOutcome::OverrideCreateFailed, "override_create_failed", false),
        (LogRootOutcome::CreateFailed, "create_failed", false),
        (LogRootOutcome::CanonicalizeFailed, "canonicalize_failed", false),
        (LogRootOutcome::VirtualStoreRedirected, "virtualstore_redirected", false),
    ] {
        assert_eq!(outcome.label(), label);
        assert_eq!(outcome.is_success(), success);
    }
}

#[test]
fn logging_is_up_once_its_file_is_open() {
    let candidates = || log_root_candidates(None, true, true);
    let claims = vec![Ok(()), Ok(()), Ok(())];
    let off = init(LevelFilter::Off, false, candidates(), &claims, true);
    assert!(!off.up && off.root.is_none());
    let again = init(LevelFilter::Info, true, candidates(), &claims, true);
    assert!(again.up && again.root.is_none());
    let up = init(LevelFilter::Info, false, candidates(), &claims, true);
    assert!(up.up);
    assert_eq!(up.root, Some(0));
    assert_eq!(up.decisions.len(), 1);
    let unopened = init(LevelFilter::Info, false, candidates(), &claims, false);
    assert!(!unopened.up);
    assert_eq!(unopened.root, Some(0));
    let nowhere = vec![Err(ClaimFailure::Create); 3];
    let failed = init(LevelFilter::Info, false, candidates(), &nowhere, true);
    assert!(!failed.up && failed.root.is_none());
}

#[test]
fn events_are_filtered_by_level() {
    assert!(level_enabled(LevelFilter::Info, Level::Error));
    assert!(level_enabled(LevelFilter::Info, Level::Info));
    assert!(!level_enabled(LevelFilter::Info, Level::Debug));
    assert!(!level_enabled(LevelFilter::Off, Level::Error));
    assert!(level_enabled(LevelFilter::Trace, Level::Trace));
}

#[test]
fn event_lines_name_their_fields() {
    let mut line = String::from("[t=0.001s tid=7] level=INFO");
    push_field(&mut line, "kind", "\"log_init\"");
    push_field(&mut line, "message", "hello");
    push_field(&mut line, "Message", "x");
    assert_eq!(
        line,
        "[t=0.001s tid=7] level=INFO kind=\"log_init\" msg=hello Message=x"
    );
}

#[test]
fn events_inside_events_are_dropped() {
    let mut guard = EventGuard::new();
    assert!(guard.enter());
    assert!(!guard.enter());
    guard.leave();
    assert!(guard.enter());
}

#[test]
fn manifests_list_the_configuration() {
    let head = ManifestHead {
        version: "1.2.3",
        host_exe: Some("C:\\th06.exe"),
        is_i686: true,
        log_root: "C:\\logs",
    };
    let text = write_manifest(&head, &CoreConfig::default(), "game.extra=1\n");
    let lines: Vec<&str> = text.lines().collect();
    assert_eq!(lines[0], "neopatch_version=1.2.3");
    assert_eq!(lines[1], "host_exe=C:\\th06.exe");
    assert_eq!(lines[2], "build_target=i686");
    assert_eq!(lines[3], "log_root=C:\\logs");
    assert_eq!(lines[4], "log.level=info");
    assert_eq!(lines[5], "log.sessions_to_keep=10");
    assert_eq!(lines[lines.len() - 1], "game.extra=1");
    let bare = ManifestHead {
        host_exe: None,
        is_i686: false,
        ..head
    };
    let text = write_manifest(&bare, &CoreConfig::default(), "");
    assert_eq!(text.lines().nth(1), Some("build_target=non-i686"));
}

#[test]
fn elapsed_time_saturates() {
    assert_eq!(elapsed_ms(None), 0);
    assert_eq!(elapsed_ms(Some(1500)), 1500);
    assert_eq!(elapsed_ms(Some(1 << 70)), u64::MAX);
}

#[test]
fn capped_events_stop() {
    let mut cap = LogCap::new(NonZeroU32::new(2).unwrap());
    let ticks = [cap.tick(), cap.tick(), cap.tick(), cap.tick()];
    assert_eq!(ticks, [Some(0), Some(1), None, None]);
}

#[test]
fn sessions_of_one_second_differ_by_process() {
    let id = make_session_id(time(2026, 45), 12345);
    assert_ne!(id, make_session_id(time(2026, 45), 1234));
    assert_ne!(id, make_session_id(time(2026, 45), 12346));
    assert_eq!(id, make_session_id(time(2026, 45), 12345));
}
