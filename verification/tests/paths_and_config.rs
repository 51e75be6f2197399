use hermes_search_agent::config::{parse_u64, timeout_from_env, FileConfig, IntErrorKind, Settings, SettingsEnv};
use hermes_search_agent::error::SearchError;
use hermes_search_agent::fsutil::backup_path;
use hermes_search_agent::paths::{env_path, expand_home, join_path, AppPaths, PathEnv};

fn env(home: Option<&str>) -> PathEnv {
    PathEnv { home: home.map(str::to_string), xdg_config_home: None, xdg_state_home: None, hermes_home: None, dsh_home: None }
}

#[test]
fn join_follows_path_join() {
    assert_eq!(join_path("/a", "b"), "/a/b");
    assert_eq!(join_path("/a/", "b"), "/a/b");
    assert_eq!(join_path("", "b"), "b");
    assert_eq!(join_path("/a", "/b"), "/b");
    assert_eq!(join_path("/a", ""), "/a/");
}

#[test]
fn home_expansion() {
    assert_eq!(expand_home("~", "/home/u"), "/home/u");
    assert_eq!(expand_home("~/x", "/home/u"), "/home/u/x");
    assert_eq!(expand_home("~x", "/home/u"), "~x");
    assert_eq!(expand_home("/abs", "/home/u"), "/abs");
    assert_eq!(env_path(Some("  "), "/home/u", "/d".into()), "/d");
    assert_eq!(env_path(Some("~/h"), "/home/u", "/d".into()), "/home/u/h");
    assert_eq!(env_path(None, "/home/u", "/d".into()), "/d");
}

#[test]
fn default_layout() {
    let p = AppPaths::discover(&env(Some("/home/u"))).unwrap();
    assert_eq!(p.config_dir, "/home/u/.config/hermes-search-agent");
    assert_eq!(p.state_dir, "/home/u/.local/state/hermes-search-agent");
    assert_eq!(p.binary_path, "/home/u/.local/bin/hermes-search-agent");
    assert_eq!(p.config_file, "/home/u/.config/hermes-search-agent/config.toml");
    assert_eq!(p.secrets_file, "/home/u/.config/hermes-search-agent/secrets.env");
    assert_eq!(p.manifest_file, "/home/u/.local/state/hermes-search-agent/install.json");
    assert_eq!(p.backups_dir, "/home/u/.local/state/hermes-search-agent/backups");
    assert_eq!(p.service_file, "/home/u/.config/systemd/user/hermes-search-agent.service");
    assert_eq!(p.hermes_profile_dir("hsa-research"), "/home/u/.hermes/profiles/hsa-research");
    assert_eq!(p.hermes_profile_marker("hsa-research"), "/home/u/.hermes/profiles/hsa-research/.hermes-search-agent-owned");
    assert_eq!(p.dsh_profile_dir("web"), "/home/u/.dsh/profiles/web");
    assert_eq!(p.dsh_patch_file("web"), "/home/u/.dsh/profiles/web/cordis.patch.yml");
    assert_eq!(p.dsh_settings_file(), "/home/u/.dsh/settings.yaml");
    assert_eq!(p.dsh_user_presets_dir(), "/home/u/.dsh/.agent-presets");
    assert_eq!(p.dsh_user_preset_dir("hsa-standard"), "/home/u/.dsh/.agent-presets/hsa-standard");
}

#[test]
fn layout_follows_the_environment() {
    let p = AppPaths::discover(&PathEnv {
        home: Some("/home/u".into()),
        xdg_config_home: Some("/cfg".into()),
        xdg_state_home: Some("".into()),
        hermes_home: Some("~/herm".into()),
        dsh_home: Some("/opt/dsh".into()),
    })
    .unwrap();
    assert_eq!(p.config_dir, "/cfg/hermes-search-agent");
    assert_eq!(p.systemd_user_dir, "/cfg/systemd/user");
    assert_eq!(p.state_dir, "/home/u/.local/state/hermes-search-agent");
    assert_eq!(p.hermes_home, "/home/u/herm");
    assert_eq!(p.dsh_home, "/opt/dsh");
}

#[test]
fn home_is_required() {
    for home in [None, Some("")] {
        match AppPaths::discover(&env(home)) {
            Err(SearchError::Config(m)) => assert_eq!(m, "HOME is not set"),
            _ => panic!("HOME must be set"),
        }
    }
}

#[test]
fn integers_parse_like_str_parse() {
    assert_eq!(parse_u64("30"), Ok(30));
    assert_eq!(parse_u64("+7"), Ok(7));
    assert_eq!(parse_u64("18446744073709551615"), Ok(u64::MAX));
    assert_eq!(parse_u64("18446744073709551616"), Err(IntErrorKind::PosOverflow));
    assert_eq!(parse_u64(""), Err(IntErrorKind::Empty));
    assert_eq!(parse_u64("+"), Err(IntErrorKind::InvalidDigit));
    assert_eq!(parse_u64("-1"), Err(IntErrorKind::InvalidDigit));
    assert_eq!(parse_u64(" 1"), Err(IntErrorKind::InvalidDigit));
    assert_eq!(parse_u64("99999999999999999999x"), Err(IntErrorKind::PosOverflow));
    for s in ["0", "42", "+0", "007", "1x", "", "-", "184467440737095516150"] {
        let expected = s.parse::<u64>().map_err(|e| e.to_string());
        let actual = parse_u64(s).map_err(|k| match k {
            IntErrorKind::Empty => "cannot parse integer from empty string".to_string(),
            IntErrorKind::InvalidDigit => "invalid digit found in string".to_string(),
            IntErrorKind::PosOverflow => "number too large to fit in target type".to_string(),
        });
        assert_eq!(actual, expected, "{s}");
    }
}

#[test]
fn timeouts() {
    assert_eq!(timeout_from_env("T", None, 30).unwrap(), 30);
    assert_eq!(timeout_from_env("T", Some("90"), 30).unwrap(), 90);
    assert_eq!(timeout_from_env("T", Some("0"), 30).unwrap_err().describe(), "invalid configuration: T must be greater than zero");
    assert_eq!(timeout_from_env("T", Some("x"), 30).unwrap_err().describe(), "invalid configuration: invalid T: invalid digit found in string");
}

fn settings_env(key: Option<&str>) -> SettingsEnv {
    SettingsEnv {
        bind: None,
        hermes_url: None,
        hermes_api_key: key.map(str::to_string),
        light_timeout: None,
        medium_timeout: Some("200".into()),
        deep_timeout: None,
    }
}

#[test]
fn settings_from_environment() {
    let s = Settings::from_env(settings_env(Some("k"))).unwrap();
    assert_eq!(s.bind, "127.0.0.1:8932");
    assert_eq!(s.hermes_url, "http://127.0.0.1:8643");
    assert_eq!((s.light_timeout, s.medium_timeout, s.deep_timeout), (30, 200, 360));
    assert_eq!(Settings::from_env(settings_env(None)).unwrap_err().describe(), "invalid configuration: HERMES_RESEARCH_API_KEY is required");
    assert_eq!(Settings::from_env(settings_env(Some(" "))).unwrap_err().describe(), "invalid configuration: HERMES_RESEARCH_API_KEY cannot be empty");
}

#[test]
fn file_config_defaults_and_install() {
    let mut c = FileConfig::default();
    assert_eq!(c.dsh.profile, "web");
    assert!(c.dsh.native_web.search && c.dsh.native_web.fetch);
    c.record_install("work", "hsa-research", hermes_search_agent::config::DshNativeWebConfig { search: false, fetch: true });
    assert_eq!(c.dsh.profile, "work");
    assert_eq!(c.dsh.server_name, "hermes_search");
    assert!(!c.dsh.native_web.search);
    assert_eq!(c.mcp.bind, "127.0.0.1:8932");
}

#[test]
fn backups_are_named_by_label_and_time() {
    assert_eq!(backup_path("/b", "dsh-web-cordis.patch.yml", 1700000000), "/b/dsh-web-cordis.patch.yml.1700000000.bak");
}
