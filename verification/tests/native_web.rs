use hermes_search_agent::config::DshNativeWebConfig;
use hermes_search_agent::error::SearchError;
use hermes_search_agent::install::dsh_native_web::{
    choose_source, detect_default_preset, ensure_owned, inspect_preset, managed_preset_id, modify_preset, record_choice,
    remove_current_owned_preset, restore, rewrite_metadata, routing_text, set_settings_default, settings_default, verify,
    PresetProbe, SourceProbe, ROUTING_MARKER,
};
use hermes_search_agent::install::manifest::{InstallManifest, NativeWebManifest};
use hermes_search_agent::paths::{AppPaths, PathEnv};
use hermes_search_agent::yaml::Yaml;

fn to_yaml(v: &serde_yaml::Value) -> Yaml {
    match v {
        serde_yaml::Value::Null => Yaml::Null,
        serde_yaml::Value::Bool(b) => Yaml::Bool(*b),
        serde_yaml::Value::Number(n) => Yaml::Number(n.to_string()),
        serde_yaml::Value::String(s) => Yaml::Str(s.clone()),
        serde_yaml::Value::Sequence(items) => Yaml::Sequence(items.iter().map(to_yaml).collect()),
        serde_yaml::Value::Mapping(m) => Yaml::Mapping(m.iter().map(|(k, v)| (to_yaml(k), to_yaml(v))).collect()),
        serde_yaml::Value::Tagged(t) => Yaml::Tagged(t.tag.to_string(), Box::new(to_yaml(&t.value))),
    }
}

fn from_yaml(y: &Yaml) -> serde_yaml::Value {
    match y {
        Yaml::Null => serde_yaml::Value::Null,
        Yaml::Bool(b) => serde_yaml::Value::Bool(*b),
        Yaml::Number(n) => serde_yaml::from_str(n).unwrap(),
        Yaml::Str(s) => serde_yaml::Value::String(s.clone()),
        Yaml::Sequence(items) => serde_yaml::Value::Sequence(items.iter().map(from_yaml).collect()),
        Yaml::Mapping(es) => {
            let mut m = serde_yaml::Mapping::new();
            for (k, v) in es {
                m.insert(from_yaml(k), from_yaml(v));
            }
            serde_yaml::Value::Mapping(m)
        }
        Yaml::Tagged(t, v) => serde_yaml::Value::Tagged(Box::new(serde_yaml::value::TaggedValue {
            tag: serde_yaml::value::Tag::new(t.clone()),
            value: from_yaml(v),
        })),
    }
}

fn parse(text: &str) -> Yaml {
    to_yaml(&serde_yaml::from_str::<serde_yaml::Value>(text).unwrap())
}

const SAMPLE: &str = r#"
- id: persona
  name: '@deepseek-ai/dsh-persona'
  config:
    text: You are a coding agent.
- id: tool-web
  name: '@deepseek-ai/dsh-tool-web'
  config:
    fetch: true
    searchTimeoutMs: 60000
"#;

fn paths() -> AppPaths {
    AppPaths::discover(&PathEnv {
        home: Some("/home/u".into()),
        xdg_config_home: None,
        xdg_state_home: None,
        hermes_home: None,
        dsh_home: None,
    })
    .unwrap()
}

fn manifest_with(managed: Option<&str>) -> InstallManifest {
    let mut m = InstallManifest::new(&paths(), "id-1".into(), "hsa-research".into(), "web".into(), "hermes_search".into(), "0.1.0");
    m.native_web.managed_preset_id = managed.map(str::to_string);
    m
}

#[test]
fn routing_explains_lowest_sufficient_level() {
    let text = routing_text(&DshNativeWebConfig { search: false, fetch: true });
    assert!(text.contains("Prefer the lowest research level sufficient"));
    assert!(text.contains("web_search is disabled"));
    assert!(text.contains("web_fetch remains available"));
}

#[test]
fn managed_document_disables_search_but_keeps_fetch() {
    let policy = DshNativeWebConfig { search: false, fetch: true };
    let doc = modify_preset(parse(SAMPLE), "standard", &policy, "agent.cordis.yml").unwrap();
    let rendered = serde_yaml::to_string(&from_yaml(&doc)).unwrap();
    let parsed = parse(&rendered);
    let inspection = inspect_preset(&parsed, "agent.cordis.yml").unwrap();
    assert!(!inspection.search);
    assert!(inspection.fetch);
    assert!(inspection.has_routing);
    let value: serde_yaml::Value = serde_yaml::from_str(&rendered).unwrap();
    let persona = value[0]["config"]["text"].as_str().unwrap();
    assert!(persona.starts_with("You are a coding agent.\n\nHERMES SEARCH AGENT ROUTING"));
    assert_eq!(value[1]["config"]["searchTimeoutMs"].as_u64(), Some(60000));
}

#[test]
fn modify_preset_reports_missing_rows() {
    let policy = DshNativeWebConfig { search: false, fetch: false };
    let err = modify_preset(parse("- id: persona\n  config: {text: hi}\n"), "standard", &policy, "p").unwrap_err();
    assert_eq!(err.describe(), "installation error: DSH preset standard does not expose the native tool-web row");
    let err = modify_preset(parse("a: 1"), "standard", &policy, "p.yml").unwrap_err();
    assert_eq!(err.describe(), "installation error: DSH preset p.yml is not a YAML sequence");
    let err = modify_preset(parse("- id: tool-web\n- id: persona\n  config: {}\n"), "standard", &policy, "p").unwrap_err();
    assert_eq!(err.describe(), "installation error: DSH preset standard persona has no text");
}

#[test]
fn inspection_counts_missing_flags_as_enabled() {
    let doc = parse("- id: tool-web\n  config: {}\n- id: persona\n  config: {text: plain}\n");
    let inspection = inspect_preset(&doc, "p").unwrap();
    assert!(inspection.search && inspection.fetch && !inspection.has_routing);
    assert!(matches!(inspect_preset(&parse("- id: tool-web\n  config: {}\n"), "p"), Err(SearchError::Install(_))));
}

#[test]
fn settings_default_is_set_and_removed() {
    let root = parse("agent-presets:\n  default: standard\nother: 1\n");
    assert_eq!(settings_default(&root), Some("standard".to_string()));
    let set = set_settings_default(root, Some("hsa-standard"), "s.yaml").unwrap();
    assert_eq!(settings_default(&set), Some("hsa-standard".to_string()));
    let cleared = set_settings_default(set, None, "s.yaml").unwrap();
    assert_eq!(settings_default(&cleared), None);
    let rendered = serde_yaml::to_string(&from_yaml(&cleared)).unwrap();
    assert_eq!(rendered, "other: 1\n");
    let fresh = set_settings_default(Yaml::Mapping(vec![]), Some("x"), "s.yaml").unwrap();
    assert_eq!(serde_yaml::to_string(&from_yaml(&fresh)).unwrap(), "agent-presets:\n  default: x\n");
    assert_eq!(
        set_settings_default(Yaml::Sequence(vec![]), Some("x"), "s.yaml").unwrap_err().describe(),
        "installation error: DSH settings s.yaml must be a YAML mapping"
    );
}

#[test]
fn metadata_is_renamed_and_unordered() {
    let doc = rewrite_metadata(parse("name: Standard\norder: 3\nicon: x\n"), "standard", "preset.yml").unwrap();
    let value = from_yaml(&doc);
    assert_eq!(value["name"].as_str(), Some("Hermes Search Agent (standard)"));
    assert_eq!(
        value["description"].as_str(),
        Some("HSA-managed copy of the standard preset with user-selected native web tool policy.")
    );
    assert!(value.get("order").is_none());
    assert_eq!(value["icon"].as_str(), Some("x"));
    assert!(rewrite_metadata(parse("- a"), "standard", "preset.yml").is_err());
}

#[test]
fn default_preset_detection() {
    assert_eq!(detect_default_preset(Some("mine".into()), None), "mine");
    let patch = parse("- id: other\n- id: agent-presets\n  config: {}\n- id: agent-presets\n  config: {default: research}\n");
    assert_eq!(detect_default_preset(None, Some(&patch)), "research");
    assert_eq!(detect_default_preset(None, Some(&parse("a: 1"))), "standard");
    assert_eq!(detect_default_preset(None, None), "standard");
}

#[test]
fn source_is_recorded_once() {
    let mut nw = NativeWebManifest::default();
    let source = choose_source(&mut nw, SourceProbe { settings_default: Ok(Some("pro".into())), patch: Ok(None) }).unwrap();
    assert_eq!(source, "pro");
    assert_eq!(nw.source_preset_id.as_deref(), Some("pro"));
    assert_eq!(nw.original_settings_default.as_deref(), Some("pro"));
    let again = choose_source(&mut nw, SourceProbe { settings_default: Ok(None), patch: Ok(None) }).unwrap();
    assert_eq!(again, "pro");
    let mut fresh = NativeWebManifest::default();
    assert_eq!(choose_source(&mut fresh, SourceProbe { settings_default: Ok(None), patch: Ok(None) }).unwrap(), "standard");
    assert_eq!(fresh.original_settings_default, None);
    assert_eq!(managed_preset_id("standard"), "hsa-standard");
}

#[test]
fn choice_is_recorded() {
    let mut nw = NativeWebManifest::default();
    assert!(!record_choice(&mut nw, &DshNativeWebConfig { search: true, fetch: true }));
    assert!(nw.choice_recorded);
    assert!(record_choice(&mut nw, &DshNativeWebConfig { search: true, fetch: false }));
}

#[test]
fn ownership_of_presets() {
    assert!(ensure_owned("/p", true, Some(" id-1\n"), "id-1").is_ok());
    assert_eq!(ensure_owned("/p", false, Some("id-1"), "id-1").unwrap_err().describe(), "installation error: managed DSH preset path is not a directory: /p");
    assert_eq!(
        ensure_owned("/p", true, None, "id-1").unwrap_err().describe(),
        "installation error: DSH preset /p already exists but is not owned by this Hermes Search Agent installation"
    );
    assert_eq!(ensure_owned("/p", true, Some("id-2"), "id-1").unwrap_err().describe(), "installation error: DSH preset /p belongs to a different installation");
}

#[test]
fn restore_puts_back_the_original_setting() {
    let mut nw = NativeWebManifest::default();
    assert!(restore(&nw, Some("x")).is_none());
    nw.managed_preset_id = Some("hsa-standard".into());
    nw.original_settings_default = Some("standard".into());
    let plan = restore(&nw, Some("hsa-standard")).unwrap();
    assert_eq!(plan.reset_default, Some(Some("standard".to_string())));
    assert_eq!(plan.remove_preset, "hsa-standard");
    let plan = restore(&nw, Some("other")).unwrap();
    assert_eq!(plan.reset_default, None);
    nw.forget_preset();
    assert!(nw.managed_preset_id.is_none() && nw.source_preset_id.is_none() && nw.original_settings_default.is_none());
    assert_eq!(remove_current_owned_preset(&paths(), &manifest_with(Some("hsa-x"))), Some("/home/u/.dsh/.agent-presets/hsa-x".to_string()));
    assert_eq!(remove_current_owned_preset(&paths(), &manifest_with(None)), None);
}

fn managed_doc(search: bool, fetch: bool) -> Yaml {
    modify_preset(parse(SAMPLE), "standard", &DshNativeWebConfig { search, fetch }, "p").unwrap()
}

#[test]
fn verify_checks_policy_and_preset() {
    let both = DshNativeWebConfig { search: true, fetch: true };
    let policy = DshNativeWebConfig { search: false, fetch: true };
    assert!(verify(&paths(), &both, &manifest_with(None), None).is_ok());
    assert_eq!(
        verify(&paths(), &both, &manifest_with(Some("hsa-standard")), None).unwrap_err().describe(),
        "installation error: native web tools are configured to stay enabled, but a managed DSH preset is still recorded"
    );
    assert_eq!(
        verify(&paths(), &policy, &manifest_with(None), None).unwrap_err().describe(),
        "installation error: native web tools are disabled in config but no managed DSH preset is recorded"
    );
    let probe = |doc: Yaml, default: Option<&str>| PresetProbe {
        is_dir: true,
        marker: Some("id-1\n".into()),
        document: Ok(doc),
        settings_default: Ok(default.map(str::to_string)),
    };
    let m = manifest_with(Some("hsa-standard"));
    assert!(verify(&paths(), &policy, &m, Some(probe(managed_doc(false, true), Some("hsa-standard")))).is_ok());
    assert_eq!(
        verify(&paths(), &policy, &m, Some(probe(managed_doc(false, false), Some("hsa-standard")))).unwrap_err().describe(),
        "installation error: managed preset native web state does not match config (expected search=false, fetch=true; found search=false, fetch=false)"
    );
    assert_eq!(
        verify(&paths(), &policy, &m, Some(probe(managed_doc(false, true), Some("standard")))).unwrap_err().describe(),
        "installation error: DSH default preset is not the managed preset hsa-standard"
    );
    let unrouted = parse("- id: tool-web\n  config: {search: false}\n- id: persona\n  config: {text: plain}\n");
    assert_eq!(
        verify(&paths(), &policy, &m, Some(probe(unrouted, Some("hsa-standard")))).unwrap_err().describe(),
        "installation error: managed DSH preset is missing Hermes research routing guidance"
    );
    let unreadable = PresetProbe {
        is_dir: true,
        marker: Some("id-1".into()),
        document: Err(SearchError::Install("cannot read".into())),
        settings_default: Ok(None),
    };
    assert_eq!(verify(&paths(), &policy, &m, Some(unreadable)).unwrap_err().describe(), "installation error: cannot read");
    assert!(ROUTING_MARKER.starts_with("HERMES"));
}

#[test]
fn routing_differs_for_each_policy() {
    let policies = [(true, true), (true, false), (false, true), (false, false)];
    let texts: Vec<String> =
        policies.iter().map(|&(search, fetch)| routing_text(&DshNativeWebConfig { search, fetch })).collect();
    for (i, a) in texts.iter().enumerate() {
        assert!(a.starts_with("HERMES SEARCH AGENT ROUTING\n\n"));
        for level in ["light_search", "medium_research", "deep_research"] {
            assert!(a.contains(level));
        }
        for b in texts.iter().skip(i + 1) {
            assert_ne!(a, b);
        }
    }
    assert!(texts[0].ends_with("Native DSH web_search and web_fetch remain available."));
    assert!(texts[3].ends_with("Use Hermes Search Agent for external web discovery and research."));
}

#[test]
fn settings_default_keeps_other_keys() {
    let root = parse("theme: dark\nagent-presets:\n  default: standard\n  pinned: [a, b]\nother: 1\n");
    let set = set_settings_default(root, Some("hsa-standard"), "s.yaml").unwrap();
    assert_eq!(
        from_yaml(&set),
        serde_yaml::from_str::<serde_yaml::Value>("theme: dark\nagent-presets: {default: hsa-standard, pinned: [a, b]}\nother: 1\n").unwrap()
    );
    let cleared = set_settings_default(set, None, "s.yaml").unwrap();
    assert_eq!(
        from_yaml(&cleared),
        serde_yaml::from_str::<serde_yaml::Value>("theme: dark\nagent-presets: {pinned: [a, b]}\nother: 1\n").unwrap()
    );
}

#[test]
fn verify_accepts_what_apply_wrote() {
    let policy = DshNativeWebConfig { search: true, fetch: false };
    let mut m = manifest_with(None);
    assert!(record_choice(&mut m.native_web, &policy));
    let source = choose_source(
        &mut m.native_web,
        SourceProbe { settings_default: Ok(Some("standard".into())), patch: Ok(None) },
    )
    .unwrap();
    let id = managed_preset_id(&source);
    let doc = modify_preset(parse(SAMPLE), &source, &policy, "p").unwrap();
    let settings = set_settings_default(parse("other: 1\n"), Some(&id), "s.yaml").unwrap();
    m.native_web.managed_preset_id = Some(id.clone());
    let probe = PresetProbe {
        is_dir: true,
        marker: Some(format!("{}\n", m.install_id)),
        document: Ok(doc),
        settings_default: Ok(settings_default(&settings)),
    };
    assert!(verify(&paths(), &policy, &m, Some(probe)).is_ok());
}
