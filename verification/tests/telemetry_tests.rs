use region_engine::store_util::normalize_dir;
use region_engine::telemetry::{
    build_report, resolve_uuid, Mode, UuidFileRead, UuidResolution, UuidState,
};

#[test]
fn resolve_uuid_decodes_found_bytes() {
    let read = UuidFileRead::Found(b"0a9f".to_vec());
    match resolve_uuid(read) {
        UuidResolution::Existing(u) => assert_eq!(u, "0a9f"),
        other => panic!("expected an existing identifier, got {other:?}"),
    }
}

#[test]
fn resolve_uuid_replaces_invalid_bytes() {
    let read = UuidFileRead::Found(vec![0x61, 0xFF, 0x62]);
    match resolve_uuid(read) {
        UuidResolution::Existing(u) => assert_eq!(u, "a\u{FFFD}b"),
        other => panic!("expected an existing identifier, got {other:?}"),
    }
}

#[test]
fn resolve_uuid_generates_fresh_identifier() {
    match resolve_uuid(UuidFileRead::NotFound) {
        UuidResolution::Fresh(u) => {
            assert_eq!(u.chars().count(), 36);
            assert_eq!(u.as_bytes()[8], b'-');
            assert_eq!(u.as_bytes()[13], b'-');
            assert_eq!(u.as_bytes()[18], b'-');
            assert_eq!(u.as_bytes()[23], b'-');
        }
        other => panic!("expected a fresh identifier, got {other:?}"),
    }
}

#[test]
fn resolve_uuid_reports_failure() {
    assert_eq!(resolve_uuid(UuidFileRead::Failed), UuidResolution::Unavailable);
}

#[test]
fn uuid_state_caches_first_success() {
    let mut state = UuidState::new();
    assert!(state.needs_fetch());

    let got = state.get_uuid(Some("abc".to_string()));
    assert_eq!(got, Some("abc".to_string()));
    // Cached: a later turn answers without any fetch, whatever is handed in.
    assert!(!state.needs_fetch());
    let got = state.get_uuid(None);
    assert_eq!(got, Some("abc".to_string()));
    let got = state.get_uuid(Some("other".to_string()));
    assert_eq!(got, Some("abc".to_string()));
}

#[test]
fn uuid_state_retry_budget_is_four_failures() {
    let mut state = UuidState::new();
    for _ in 0..4 {
        assert!(state.needs_fetch());
        assert_eq!(state.get_uuid(None), None);
    }
    // Budget exhausted: no more fetches, and even a late success is ignored.
    assert!(!state.needs_fetch());
    assert_eq!(state.get_uuid(Some("late".to_string())), None);
    assert_eq!(state.get_uuid(None), None);
}

#[test]
fn build_report_requires_an_identifier() {
    assert_eq!(
        build_report(
            None,
            "linux".to_string(),
            "1.0.0".to_string(),
            "x86_64".to_string(),
            Mode::Standalone,
            "deadbeef".to_string(),
            Some(1),
        ),
        None
    );

    let report = build_report(
        Some("test".to_string()),
        "linux".to_string(),
        "1.0.0".to_string(),
        "aarch64".to_string(),
        Mode::Distributed,
        "deadbeef".to_string(),
        Some(3),
    )
    .unwrap();
    assert_eq!(report.uuid, "test");
    assert_eq!(report.os, "linux");
    assert_eq!(report.version, "1.0.0");
    assert_eq!(report.arch, "aarch64");
    assert_eq!(report.mode, Mode::Distributed);
    assert_eq!(report.git_commit, "deadbeef");
    assert_eq!(report.nodes, Some(3));
}

#[test]
fn normalize_dir_appends_exactly_one_slash() {
    assert_eq!(normalize_dir(&b"data".to_vec()), b"data/".to_vec());
    assert_eq!(normalize_dir(&b"data/".to_vec()), b"data/".to_vec());
    assert_eq!(normalize_dir(&b"".to_vec()), b"/".to_vec());
    assert_eq!(normalize_dir(&b"a/b".to_vec()), b"a/b/".to_vec());
}
