use hermes_search_agent::config::DshNativeWebConfig;
use hermes_search_agent::install::hermes::{
    configure_profile, delete_owned_profile, missing_model_error, owner_marker, profile_commands, profile_env,
    profile_has_model, restart_gateway, stop_gateway, verify_ownership,
};
use hermes_search_agent::install::manifest::{InstallManifest, NativeWebManifest};
use hermes_search_agent::install::preflight::{run, PreflightProbe};
use hermes_search_agent::install::rollback::{rollback_plan, snapshot_paths, RollbackPlan};
use hermes_search_agent::install::secrets::{load_or_generate, profile_env_merge, read_env_value};
use hermes_search_agent::install::systemd::{escape, install, is_active, is_active_command, restart, uninstall, unit_text};
use hermes_search_agent::install::{
    existing_install_id, parse_answer, resolve_native_web_policy, resolve_tool_choice, tool_enabled, InstallOptions,
    ToolChoice,
};
use hermes_search_agent::paths::{AppPaths, PathEnv};
use hermes_search_agent::process::{require_success, ProcessOutput};
use hermes_search_agent::yaml::Yaml;

fn to_yaml(v: &serde_yaml::Value) -> Yaml {
    match v {
        serde_yaml::Value::Null => Yaml::Null,
        serde_yaml::Value::Bool(b) => Yaml::Bool(*b),
        serde_yaml::Value::Number(n) => Yaml::Number(n.to_string()),
        serde_yaml::Value::String(s) => Yaml::Str(s.clone()),
        serde_yaml::Value::Sequence(items) => Yaml::Sequence(items.iter().map(to_yaml).collect()),
        serde_yaml::Value::Mapping(m) => Yaml::Mapping(m.iter().map(|(k, v)| (to_yaml(k), to_yaml(v))).collect()),
        serde_yaml::Value::Tagged(t) => Yaml::Tagged(t.tag.to_string(), Box::new(to_yaml(&t.value))),
    }
}

fn from_yaml(y: &Yaml) -> serde_yaml::Value {
    match y {
        Yaml::Null => serde_yaml::Value::Null,
        Yaml::Bool(b) => serde_yaml::Value::Bool(*b),
        Yaml::Number(n) => serde_yaml::from_str(n).unwrap(),
        Yaml::Str(s) => serde_yaml::Value::String(s.clone()),
        Yaml::Sequence(items) => serde_yaml::Value::Sequence(items.iter().map(from_yaml).collect()),
        Yaml::Mapping(es) => {
            let mut m = serde_yaml::Mapping::new();
            for (k, v) in es {
                m.insert(from_yaml(k), from_yaml(v));
            }
            serde_yaml::Value::Mapping(m)
        }
        Yaml::Tagged(t, v) => serde_yaml::Value::Tagged(Box::new(serde_yaml::value::TaggedValue {
            tag: serde_yaml::value::Tag::new(t.clone()),
            value: from_yaml(v),
        })),
    }
}

fn parse(text: &str) -> Yaml {
    to_yaml(&serde_yaml::from_str::<serde_yaml::Value>(text).unwrap())
}

fn paths() -> AppPaths {
    AppPaths::discover(&PathEnv {
        home: Some("/home/my user".into()),
        xdg_config_home: None,
        xdg_state_home: None,
        hermes_home: None,
        dsh_home: None,
    })
    .unwrap()
}

fn options(non_interactive: bool, search: Option<bool>, fetch: Option<bool>) -> InstallOptions {
    InstallOptions { dry_run: false, non_interactive, dsh_profile: "web".into(), dsh_web_search: search, dsh_web_fetch: fetch }
}

#[test]
fn unattended_first_install_keeps_native_tools() {
    let current = DshNativeWebConfig { search: false, fetch: false };
    let choices = resolve_native_web_policy(&options(true, None, None), &current, &NativeWebManifest::default());
    assert!(!choices.explain);
    assert_eq!(choices.search, ToolChoice::Decided(true));
    assert_eq!(choices.fetch, ToolChoice::Decided(true));
}

#[test]
fn tool_choices() {
    assert_eq!(resolve_tool_choice(Some(false), true, true, false, true), ToolChoice::Decided(false));
    assert_eq!(resolve_tool_choice(None, false, true, true, true), ToolChoice::Decided(false));
    assert_eq!(resolve_tool_choice(None, true, false, false, false), ToolChoice::Ask { default_yes: true });
    assert_eq!(resolve_tool_choice(None, true, false, true, false), ToolChoice::Ask { default_yes: false });
    let mut recorded = NativeWebManifest::default();
    recorded.choice_recorded = true;
    let choices = resolve_native_web_policy(
        &options(false, None, Some(true)),
        &DshNativeWebConfig { search: false, fetch: true },
        &recorded,
    );
    assert!(choices.explain);
    assert_eq!(choices.search, ToolChoice::Ask { default_yes: true });
    assert_eq!(choices.fetch, ToolChoice::Decided(true));
    assert!(!tool_enabled(&ToolChoice::Ask { default_yes: true }, true));
    assert!(tool_enabled(&ToolChoice::Decided(true), true));
}

#[test]
fn yes_no_replies() {
    assert_eq!(parse_answer("", true), Some(true));
    assert_eq!(parse_answer("  \n", false), Some(false));
    assert_eq!(parse_answer("Y\n", false), Some(true));
    assert_eq!(parse_answer(" yEs ", false), Some(true));
    assert_eq!(parse_answer("NO", true), Some(false));
    assert_eq!(parse_answer("n", true), Some(false));
    assert_eq!(parse_answer("maybe", true), None);
    assert_eq!(parse_answer("yess", true), None);
}

#[test]
fn install_ids() {
    let m = InstallManifest::new(&paths(), "abc".into(), "p".into(), "web".into(), "s".into(), "1.0.0");
    assert_eq!(existing_install_id(Some(&m), Some("other")), "abc");
    assert_eq!(existing_install_id(None, Some(" marker-id \n")), "marker-id");
    let fresh = existing_install_id(None, Some("  "));
    assert_eq!(fresh.len(), 36);
    assert_ne!(fresh, existing_install_id(None, None));
}

#[test]
fn manifest_starts_clean() {
    let p = paths();
    let mut m = InstallManifest::new(&p, "abc".into(), "hsa-research".into(), "web".into(), "hermes_search".into(), "1.0.0");
    assert_eq!(m.dsh_patch_file, p.dsh_patch_file("web"));
    assert_eq!(m.binary_path, p.binary_path);
    assert!(!m.profile_owned && !m.installed_hermes && !m.native_web.choice_recorded);
    assert_eq!(m.installed_at, m.updated_at);
    let installed = m.installed_at;
    m.stamp("2.0.0");
    assert_eq!(m.app_version, "2.0.0");
    assert_eq!(m.installed_at, installed);
    assert!(m.updated_at >= installed);
}

#[test]
fn env_merge_replaces_and_appends() {
    let merged = profile_env_merge("# keep\n  API_SERVER_PORT=1\nOTHER=x\r\n", &[("API_SERVER_PORT", "8643"), ("NEW", "v")]);
    assert_eq!(merged, "# keep\nAPI_SERVER_PORT=8643\nOTHER=x\nNEW=v\n");
    assert_eq!(profile_env_merge("", &[("A", "1")]), "A=1\n");
    let env = profile_env("API_SERVER_KEY=old\n", "s3cret");
    assert_eq!(
        env,
        "API_SERVER_KEY=s3cret\nAPI_SERVER_ENABLED=true\nAPI_SERVER_HOST=127.0.0.1\nAPI_SERVER_PORT=8643\nGATEWAY_MULTIPLEX_PROFILES=false\n"
    );
    assert_eq!(read_env_value(&env, "API_SERVER_KEY"), Some("s3cret".to_string()));
    assert_eq!(read_env_value(&env, "MISSING"), None);
}

#[test]
fn secrets() {
    let p = paths();
    let file = hermes_search_agent::install::secrets::write(&p, "hsa_x");
    assert_eq!(file.path, p.secrets_file);
    assert_eq!(file.contents, "# Managed by hermes-search-agent. Owner read/write only.\nHERMES_RESEARCH_API_KEY=hsa_x\n");
    assert_eq!(file.mode, 0o600);
    assert_eq!(read_env_value(&file.contents, "HERMES_RESEARCH_API_KEY"), Some("hsa_x".to_string()));
    assert_eq!(load_or_generate(Some("kept".into())), "kept");
    let fresh = load_or_generate(Some(" ".into()));
    assert!(fresh.starts_with("hsa_") && fresh.len() == 68);
    assert!(fresh[4..].chars().all(|c| c.is_ascii_hexdigit()));
}

#[test]
fn systemd_unit_and_commands() {
    let p = paths();
    let unit = unit_text(&p, "hsa-research");
    assert!(unit.contains("After=network-online.target hermes-gateway-hsa-research.service\n"));
    assert!(unit.contains("EnvironmentFile=/home/my\\x20user/.config/hermes-search-agent/secrets.env\n"));
    assert!(unit.contains("ExecStart=/home/my\\x20user/.local/bin/hermes-search-agent serve\n"));
    assert!(unit.ends_with("[Install]\nWantedBy=default.target\n"));
    assert_eq!(escape("a b  c"), "a\\x20b\\x20\\x20c");
    let plan = install(&p, "hsa-research");
    assert_eq!(plan.unit.path, p.service_file);
    assert_eq!(plan.unit.mode, 0o644);
    assert_eq!(plan.reload, vec!["--user", "daemon-reload"]);
    assert_eq!(plan.enable, vec!["--user", "enable", "--now", "hermes-search-agent.service"]);
    assert_eq!(restart().restart, vec!["--user", "restart", "hermes-search-agent.service"]);
    assert_eq!(uninstall(&p).disable, vec!["--user", "disable", "--now", "hermes-search-agent.service"]);
    assert_eq!(is_active_command("x.service"), vec!["--user", "is-active", "--quiet", "x.service"]);
    let ok = ProcessOutput { code: Some(0), stdout: String::new(), stderr: String::new() };
    let failed = ProcessOutput { code: Some(3), stdout: String::new(), stderr: String::new() };
    assert!(is_active(Some(&ok)) && !is_active(Some(&failed)) && !is_active(None));
}

#[test]
fn commands_must_succeed() {
    let ok = ProcessOutput { code: Some(0), stdout: "out".into(), stderr: String::new() };
    assert_eq!(require_success("dsh", ok).unwrap().stdout, "out");
    let killed = ProcessOutput { code: None, stdout: String::new(), stderr: "killed".into() };
    assert_eq!(require_success("dsh", killed).unwrap_err().describe(), "command failed: dsh (exit None)\nkilled");
    let failed = ProcessOutput { code: Some(-2), stdout: String::new(), stderr: "e".into() };
    assert_eq!(require_success("/bin/x", failed).unwrap_err().describe(), "command failed: /bin/x (exit Some(-2))\ne");
}

#[test]
fn profile_configuration() {
    let root = parse("model:\n  default: gpt\nweb: disabled\ngateway:\n  other: 1\nplatforms:\n  telegram:\n    enabled: true\n    token: t\n");
    let doc = configure_profile(Some(root), "config.yaml").unwrap();
    let v = from_yaml(&doc);
    assert_eq!(v["platform_toolsets"]["api_server"][0].as_str(), Some("web"));
    assert_eq!(v["platform_toolsets"]["api_server"][1].as_str(), Some("browser"));
    assert_eq!(v["web"]["search_backend"].as_str(), Some("ddgs"));
    assert_eq!(v["web"]["extract_backend"].as_str(), Some("firecrawl"));
    assert_eq!(v["gateway"]["multiplex_profiles"].as_bool(), Some(false));
    assert_eq!(v["gateway"]["other"].as_u64(), Some(1));
    assert_eq!(v["platforms"]["telegram"]["enabled"].as_bool(), Some(false));
    assert!(v["platforms"]["telegram"].get("token").is_none());
    assert_eq!(v["platforms"]["relay"]["enabled"].as_bool(), Some(false));
    assert_eq!(v["platforms"]["api_server"]["enabled"].as_bool(), Some(true));
    assert_eq!(v["model"]["default"].as_str(), Some("gpt"));
    assert!(profile_has_model(&doc));
    let fresh = configure_profile(None, "config.yaml").unwrap();
    assert!(!profile_has_model(&fresh));
    assert_eq!(
        configure_profile(Some(parse("- a")), "config.yaml").unwrap_err().describe(),
        "installation error: Hermes profile config is not a mapping: config.yaml"
    );
    assert!(!profile_has_model(&parse("model:\n  default: '  '\n")));
    assert!(profile_has_model(&parse("model:\n  model: m\n")));
}

#[test]
fn profile_ownership_and_commands() {
    assert!(verify_ownership("/m", Some("id\n"), "id").is_ok());
    assert_eq!(
        verify_ownership("/m", None, "id").unwrap_err().describe(),
        "installation error: refusing to manage existing Hermes profile without ownership marker: /m"
    );
    assert_eq!(
        verify_ownership("/m", Some("other"), "id").unwrap_err().describe(),
        "installation error: Hermes profile ownership marker does not match this installation: /m"
    );
    assert_eq!(owner_marker("id"), "id\n");
    let c = profile_commands("hsa-research");
    assert_eq!(c.create[..4], ["profile", "create", "hsa-research", "--clone-from"]);
    assert_eq!(c.gateway_install, vec!["-p", "hsa-research", "gateway", "install", "--force", "--start-now", "--start-on-login"]);
    assert_eq!(restart_gateway("p"), vec!["-p", "p", "gateway", "restart"]);
    assert_eq!(stop_gateway("p"), vec!["-p", "p", "gateway", "stop"]);
    assert!(missing_model_error("p").describe().contains("run `hermes -p p setup`"));
    let m = InstallManifest::new(&paths(), "id".into(), "hsa-research".into(), "web".into(), "s".into(), "1.0.0");
    assert_eq!(delete_owned_profile(&paths(), &m, Some("id")).unwrap(), vec!["profile", "delete", "hsa-research", "--yes"]);
    assert!(delete_owned_profile(&paths(), &m, Some("x")).is_err());
}

#[test]
fn preflight_decisions() {
    let ok = || ProcessOutput { code: Some(0), stdout: "dsh 1.2".into(), stderr: String::new() };
    let probe = || PreflightProbe {
        is_linux: true,
        systemd: Some(Ok(ok())),
        dsh: Some(("/usr/bin/dsh".into(), Ok(ok()))),
        existing: Ok(None),
        hermes: None,
        bash: true,
        curl: true,
        git: true,
        api_port_error: None,
        mcp_port_error: None,
        profile_dir_exists: false,
        profile_marker_exists: false,
        dsh_profile_exists: true,
        dsh_profile_is_dir: true,
    };
    let p = paths();
    let found = run(&p, "web", probe()).unwrap();
    assert_eq!(found.dsh, "/usr/bin/dsh");
    assert_eq!(found.dsh_version, "dsh 1.2");
    assert!(found.hermes.is_none() && found.existing.is_none());

    let mut no_git = probe();
    no_git.git = false;
    assert_eq!(run(&p, "web", no_git).unwrap_err().describe(), "installation error: git is required to install Hermes");

    let mut busy = probe();
    busy.mcp_port_error = Some("Address already in use (os error 98)".into());
    assert_eq!(
        run(&p, "web", busy).unwrap_err().describe(),
        "installation error: research MCP port 127.0.0.1:8932 is already in use: Address already in use (os error 98)"
    );

    let mut foreign = probe();
    foreign.profile_dir_exists = true;
    assert_eq!(
        run(&p, "web", foreign).unwrap_err().describe(),
        "installation error: Hermes profile '/home/my user/.hermes/profiles/hsa-research' already exists but is not owned by this application"
    );

    let mut not_linux = probe();
    not_linux.is_linux = false;
    not_linux.systemd = None;
    assert_eq!(
        run(&p, "web", not_linux).unwrap_err().describe(),
        "installation error: the managed installer currently supports Linux only"
    );

    let mut down = probe();
    down.systemd = Some(Ok(ProcessOutput { code: Some(1), stdout: String::new(), stderr: "no bus".into() }));
    assert_eq!(run(&p, "web", down).unwrap_err().describe(), "installation error: systemd user manager is unavailable: no bus");

    let mut file = probe();
    file.dsh_profile_is_dir = false;
    assert_eq!(
        run(&p, "web", file).unwrap_err().describe(),
        "installation error: DSH profile path is not a directory: /home/my user/.dsh/profiles/web"
    );
}

#[test]
fn rollback_rules() {
    let p = paths();
    let files = snapshot_paths(&p, "hsa-research", "web");
    assert_eq!(files.len(), 10);
    assert_eq!(files[0], p.dsh_settings_file());
    assert_eq!(files[1], p.dsh_patch_file("web"));
    assert_eq!(files[2], p.hermes_profile_marker("hsa-research"));
    assert_eq!(files[9], p.config_file);
    assert_eq!(
        rollback_plan(false, true, true, true, true, false),
        RollbackPlan { delete_profile: true, reload_service: true, restart_service: false }
    );
    assert_eq!(
        rollback_plan(true, true, true, false, true, true),
        RollbackPlan { delete_profile: false, reload_service: false, restart_service: false }
    );
}

#[test]
fn fresh_install_id_is_a_hyphenated_uuid() {
    let id = existing_install_id(None, None);
    let chars: Vec<char> = id.chars().collect();
    assert_eq!(chars.len(), 36);
    for (i, c) in chars.iter().enumerate() {
        if [8, 13, 18, 23].contains(&i) {
            assert_eq!(*c, '-');
        } else {
            assert!(c.is_ascii_digit() || ('a'..='f').contains(c));
        }
    }
    assert_eq!(chars[14], '4');
    assert!(['8', '9', 'a', 'b'].contains(&chars[19]));
}
