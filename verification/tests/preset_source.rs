use hermes_search_agent::error::SearchError;
use hermes_search_agent::install::preset_source::{
    components, direct_candidate, pick_source_preset, pnpm_candidate, preset_roots, PnpmEntry, RootProbe,
};
use hermes_search_agent::paths::{AppPaths, PathEnv};

fn paths() -> AppPaths {
    AppPaths::discover(&PathEnv {
        home: Some("/home/u".into()),
        xdg_config_home: None,
        xdg_state_home: None,
        hermes_home: None,
        dsh_home: None,
    })
    .unwrap()
}

fn ancestor(path: &str, named: bool, nested: bool) -> (String, bool, bool) {
    (path.to_string(), named, nested)
}

#[test]
fn roots_are_sorted_by_path_and_deduplicated() {
    let ancestors = vec![
        ancestor("/opt/dsh/node_modules/.bin", false, false),
        ancestor("/opt/dsh/node_modules", true, false),
        ancestor("/opt/dsh", false, true),
        ancestor("/opt", false, false),
        ancestor("/", false, false),
    ];
    let roots = preset_roots("/home/u/.dsh/profiles/web/node_modules", &ancestors);
    assert_eq!(roots, ["/home/u/.dsh/profiles/web/node_modules", "/opt/dsh/node_modules"]);
}

#[test]
fn roots_follow_component_order_not_text_order() {
    let ancestors = vec![ancestor("/a-c", true, false), ancestor("/a/b", true, false), ancestor("/a//b/", true, false)];
    let roots = preset_roots("/z", &ancestors);
    let mut expected: Vec<std::path::PathBuf> =
        ["/z", "/a-c", "/a/b", "/a//b/"].iter().map(std::path::PathBuf::from).collect();
    expected.sort();
    expected.dedup();
    let expected: Vec<String> = expected.iter().map(|p| p.to_string_lossy().into_owned()).collect();
    assert_eq!(roots, expected);
    assert_eq!(roots, ["/a/b", "/a-c", "/z"]);
}

#[test]
fn components_read_like_std_paths() {
    let names = |p: &str| -> Vec<(u8, String)> {
        components(p).into_iter().map(|(k, cs)| (k, cs.into_iter().collect())).collect()
    };
    assert_eq!(names("/a//b/./c/"), [(0, String::new()), (3, "a".into()), (3, "b".into()), (3, "c".into())]);
    assert_eq!(names("./x/../y"), [(1, String::new()), (3, "x".into()), (2, "..".into()), (3, "y".into())]);
    assert_eq!(names(".hidden"), [(3, ".hidden".to_string())]);
}

#[test]
fn direct_package_wins_then_pnpm_then_user_preset() {
    let p = paths();
    assert_eq!(direct_candidate("/n", "std"), "/n/@deepseek-ai/dsh-agent-presets/presets/std");
    assert_eq!(pnpm_candidate("/n/.pnpm/x", "std"), "/n/.pnpm/x/node_modules/@deepseek-ai/dsh-agent-presets/presets/std");
    let entry = |name: &str, found: bool| {
        Ok(PnpmEntry { name: name.into(), path: format!("/n/.pnpm/{name}"), candidate_is_dir: found })
    };
    let roots = vec![
        RootProbe { root: "/m".into(), direct_is_dir: false, pnpm: None },
        RootProbe {
            root: "/n".into(),
            direct_is_dir: false,
            pnpm: Some(Ok(vec![entry("other", true), entry("@deepseek-ai+dsh-agent-presets@1.0.0", true)])),
        },
    ];
    assert_eq!(
        pick_source_preset(roots, "std", true, &p, "web").unwrap(),
        "/n/.pnpm/@deepseek-ai+dsh-agent-presets@1.0.0/node_modules/@deepseek-ai/dsh-agent-presets/presets/std"
    );
    let direct = vec![RootProbe { root: "/m".into(), direct_is_dir: true, pnpm: None }];
    assert_eq!(pick_source_preset(direct, "std", true, &p, "web").unwrap(), "/m/@deepseek-ai/dsh-agent-presets/presets/std");
    assert_eq!(pick_source_preset(vec![], "std", true, &p, "web").unwrap(), "/home/u/.dsh/.agent-presets/std");
}

#[test]
fn unreadable_store_and_missing_preset_are_errors() {
    let p = paths();
    let broken = vec![RootProbe {
        root: "/n".into(),
        direct_is_dir: false,
        pnpm: Some(Err(SearchError::Install("cannot list".into()))),
    }];
    assert_eq!(pick_source_preset(broken, "std", true, &p, "web").unwrap_err().describe(), "installation error: cannot list");
    assert_eq!(
        pick_source_preset(vec![], "std", false, &p, "web").unwrap_err().describe(),
        "installation error: could not locate DSH preset std; expected @deepseek-ai/dsh-agent-presets under profile /home/u/.dsh/profiles/web or a user preset under /home/u/.dsh/.agent-presets"
    );
}
