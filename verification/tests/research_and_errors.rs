use hermes_search_agent::config::Settings;
use hermes_search_agent::error::SearchError;
use hermes_search_agent::hermes::CompletedRun;
use hermes_search_agent::json::Json;
use hermes_search_agent::research::{finish_run, session_id, ResearchMode, ResearchTimeouts, RunOutcome};
use hermes_search_agent::transaction::FileSnapshot;
use hermes_search_agent::update::{check_checksum, newer_release, release_version_text};

#[test]
fn levels_and_time_limits() {
    let settings = Settings {
        bind: "127.0.0.1:8932".into(),
        hermes_url: "http://h".into(),
        hermes_api_key: "k".into(),
        light_timeout: 30,
        medium_timeout: 120,
        deep_timeout: 360,
    };
    let t = ResearchTimeouts::new(&settings);
    assert_eq!(t.timeout_for(ResearchMode::Light), 30);
    assert_eq!(t.timeout_for(ResearchMode::Medium), 120);
    assert_eq!(t.timeout_for(ResearchMode::Deep), 360);
    assert_eq!(ResearchMode::Deep.name(), "deep_research");
    assert_eq!(session_id("r1"), "dsh-research-r1");
}

#[test]
fn run_endings() {
    let done = finish_run(RunOutcome::Completed(CompletedRun { content: "answer".into(), raw_event: Json::Null }), 30);
    assert_eq!(done.result.unwrap(), "answer");
    assert!(!done.stop_run);
    let late = finish_run(RunOutcome::TimedOut, 30);
    assert!(late.stop_run);
    assert_eq!(late.result.unwrap_err().describe(), "research timed out after 30s");
    let failed = finish_run(RunOutcome::Failed(SearchError::HermesRun("boom".into())), 30);
    assert!(failed.stop_run);
    assert_eq!(failed.result.unwrap_err().describe(), "Hermes research run failed: boom");
}

#[test]
fn error_messages() {
    assert_eq!(SearchError::Config("x".into()).describe(), "invalid configuration: x");
    assert_eq!(SearchError::InvalidInput("x".into()).describe(), "invalid research brief: x");
    assert_eq!(SearchError::HermesProtocol("x".into()).describe(), "Hermes protocol error: x");
    assert_eq!(SearchError::Install("x".into()).describe(), "installation error: x");
    assert_eq!(
        SearchError::Command { program: "p".into(), code: Some(i32::MIN), stderr: "e".into() }.describe(),
        "command failed: p (exit Some(-2147483648))\ne"
    );
    assert_eq!(SearchError::Timeout { seconds: 0 }.describe(), "research timed out after 0s");
}

#[test]
fn snapshots_remember_absence() {
    let present = FileSnapshot::capture("/tmp/a", Some(b"before".to_vec()));
    assert!(present.existed());
    assert_eq!(present.path(), "/tmp/a");
    assert_eq!(present.content().map(|v| v.as_slice()), Some(&b"before"[..]));
    let absent = FileSnapshot::capture("/tmp/b", None);
    assert!(!absent.existed());
    assert!(absent.content().is_none());
}

#[test]
fn checksums_and_versions() {
    let hello_sha = "185f8db32271fe25f561a6fc938b2e264306ec304eda518007d1764826381969";
    assert!(check_checksum(&format!("{hello_sha}  hermes-search-agent\n"), b"Hello").is_ok());
    assert!(check_checksum(&format!("  {}\n", hello_sha.to_uppercase()), b"Hello").is_ok());
    assert_eq!(check_checksum(" \n", b"Hello").unwrap_err().describe(), "installation error: invalid checksum asset");
    assert_eq!(
        check_checksum("abc file", b"Hello").unwrap_err().describe(),
        format!("installation error: checksum mismatch: expected abc, got {hello_sha}")
    );
    assert_eq!(release_version_text("v1.2.3"), "1.2.3");
    assert_eq!(release_version_text("vv2"), "2");
    assert_eq!(release_version_text("1.0"), "1.0");
}

#[test]
fn release_versions_are_compared() {
    assert_eq!(newer_release("v1.2.0", "1.1.9").unwrap(), true);
    assert_eq!(newer_release("v1.2.0", "1.2.0").unwrap(), false);
    assert_eq!(newer_release("1.2.0-rc.1", "1.2.0").unwrap(), false);
    assert_eq!(newer_release("v0.10.0", "0.9.9").unwrap(), true);
    let error = newer_release("latest", "1.0.0").unwrap_err().describe();
    assert!(error.starts_with("installation error: release tag is not semver: "), "{error}");
    let error = newer_release("v1.0.0", "one").unwrap_err().describe();
    assert!(error.starts_with("installation error: current version is not semver: "), "{error}");
}
