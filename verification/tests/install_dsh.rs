use hermes_search_agent::install::dsh::{
    backup_label, dump_config_commands, initialize_error, is_integrated, managed_block, rejected_patch_error,
    remove_block, replace_block, upsert_block, validate_patch, BEGIN, END,
};
use hermes_search_agent::yaml::Yaml;

#[test]
fn replaces_empty_sequence() {
    let out = upsert_block("[]\n", &managed_block("hermes_search")).unwrap();
    assert!(out.starts_with(BEGIN));
    assert!(!out.contains("[]"));
}

#[test]
fn preserves_other_entries() {
    let original = "- id: existing\n  disabled: true\n";
    let out = upsert_block(original, &managed_block("hermes_search")).unwrap();
    assert!(out.contains("id: existing"));
    assert!(out.contains("mcp-hermes-search"));
    let removed = remove_block(&out).unwrap();
    assert!(removed.contains("id: existing"));
    assert!(!removed.contains("mcp-hermes-search"));
}

#[test]
fn upsert_twice_changes_nothing_and_remove_restores() {
    let original = "- id: existing\n  disabled: true\n";
    let block = managed_block("hermes_search");
    let once = upsert_block(original, &block).unwrap();
    assert_eq!(once, format!("- id: existing\n  disabled: true\n\n{block}\n"));
    let twice = upsert_block(&once, &block).unwrap();
    assert_eq!(twice, once);
    assert_eq!(remove_block(&once).unwrap(), "- id: existing\n  disabled: true\n");
    assert_eq!(remove_block(&upsert_block("", &block).unwrap()).unwrap(), "[]\n");
}

#[test]
fn managed_block_names_the_server() {
    let block = managed_block("research");
    assert!(block.starts_with(BEGIN) && block.ends_with(END));
    assert!(block.contains("        serverName: research\n"));
    assert!(block.contains("url: http://127.0.0.1:8932/mcp"));
}

#[test]
fn malformed_blocks_are_refused() {
    let no_end = format!("{BEGIN}\n- x\n");
    assert_eq!(upsert_block(&no_end, "B").unwrap_err().describe(), "installation error: managed DSH block is malformed: missing END marker");
    let no_begin = format!("- x\n{END}\n");
    assert_eq!(remove_block(&no_begin).unwrap_err().describe(), "installation error: managed DSH block is malformed: missing BEGIN marker");
    assert_eq!(replace_block(&format!("a{BEGIN}old{END}z"), "NEW").unwrap(), "aNEWz");
}

#[test]
fn integration_needs_both_markers() {
    let patched = upsert_block("[]\n", &managed_block("hermes_search")).unwrap();
    assert!(is_integrated(Some(&patched)));
    assert!(!is_integrated(Some(BEGIN)));
    assert!(!is_integrated(None));
}

#[test]
fn patch_validation() {
    assert!(validate_patch("  \n", &Err("ignored".into()), "p.yml").is_ok());
    assert_eq!(
        validate_patch("a: [", &Err("bad".into()), "p.yml").unwrap_err().describe(),
        "installation error: cannot safely edit p.yml: invalid YAML: bad"
    );
    assert_eq!(
        validate_patch("a: 1", &Ok(Yaml::Mapping(vec![])), "p.yml").unwrap_err().describe(),
        "installation error: cannot safely edit p.yml: expected a top-level YAML sequence"
    );
    let tagged = Yaml::Tagged("!list".into(), Box::new(Yaml::Sequence(vec![])));
    assert!(validate_patch("!list []", &Ok(tagged), "p.yml").is_ok());
}

#[test]
fn profile_commands_and_messages() {
    let commands = dump_config_commands("web");
    assert_eq!(commands.primary, vec!["--profile", "web", "--dump-config"]);
    assert_eq!(commands.fallback, vec!["web", "--dump-config"]);
    assert_eq!(initialize_error("web", "a", "b").describe(), "installation error: could not initialize DSH profile web: a; fallback: b");
    assert_eq!(rejected_patch_error("a", "b").describe(), "installation error: DSH rejected the managed MCP patch: a; fallback: b");
    assert_eq!(backup_label("web"), "dsh-web-cordis.patch.yml");
}

#[test]
fn server_name_with_hash_round_trips() {
    let block = managed_block("research#1");
    let original = "- id: existing\n";
    let once = upsert_block(original, &block).unwrap();
    assert_eq!(upsert_block(&once, &block).unwrap(), once);
    assert_eq!(remove_block(&once).unwrap(), original);
}
