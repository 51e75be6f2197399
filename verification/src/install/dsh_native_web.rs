//! The user's choice of DSH native web tools.
//!
//! DSH's shipped presets are never edited.  When either native tool is
//! disabled, an owned user preset is copied from the current default, only
//! that copy is changed, and DSH's user setting is pointed at it.  This
//! module holds the document edits and the decisions; the application does
//! the copying, reading and writing.
use vstd::prelude::*;

use crate::config::DshNativeWebConfig;
use crate::error::{install_error, SearchError};
use crate::install::manifest::{InstallManifest, NativeWebManifest};
use crate::paths::{joined, AppPaths};
use crate::text;
use crate::yaml::{
    self, as_mapping, as_sequence, bool_field, get, index_of, insert, key, remove, retag, str_field,
    tags_of, view_entries, view_items, Yaml, YamlV,
};

verus! {

pub const ROUTING_MARKER: &'static str = "HERMES SEARCH AGENT ROUTING";

// ---------------------------------------------------------------------------
// DSH settings: the selected default preset
// ---------------------------------------------------------------------------

pub open spec fn presets_key() -> YamlV {
    key("agent-presets"@)
}

pub open spec fn default_key() -> YamlV {
    key("default"@)
}

/// The `agent-presets.default` setting of a DSH settings document.
pub open spec fn settings_default_of(root: YamlV) -> Option<Seq<char>> {
    match as_mapping(root) {
        Some(es) => match get(es, presets_key()) {
            Some(ns) => match as_mapping(ns) {
                Some(n) => str_field(n, "default"@),
                None => None,
            },
            None => None,
        },
        None => None,
    }
}

/// The root entries with `agent-presets.default` set to `d` (creating the
/// namespace when absent).
pub open spec fn entries_with_default(es: Seq<(YamlV, YamlV)>, d: Seq<char>) -> Result<
    Seq<(YamlV, YamlV)>,
    Seq<char>,
> {
    let es1 = if get(es, presets_key()) is Some {
        es
    } else {
        insert(es, presets_key(), YamlV::Mapping(Seq::empty()))
    };
    let nsv = get(es1, presets_key())->0;
    match as_mapping(nsv) {
        Some(ns) => Ok(
            insert(
                es1,
                presets_key(),
                retag(nsv, YamlV::Mapping(insert(ns, default_key(), YamlV::Str(d)))),
            ),
        ),
        None => Err("DSH settings agent-presets entry must be a mapping"@),
    }
}

/// The root entries without `agent-presets.default`; the namespace goes
/// when nothing else is left in it.  A namespace that is not a mapping is
/// left alone.
pub open spec fn entries_without_default(es: Seq<(YamlV, YamlV)>) -> Seq<(YamlV, YamlV)> {
    match get(es, presets_key()) {
        Some(nsv) => match as_mapping(nsv) {
            Some(ns) => {
                let ns2 = remove(ns, default_key());
                if ns2.len() == 0 {
                    remove(es, presets_key())
                } else {
                    insert(es, presets_key(), retag(nsv, YamlV::Mapping(ns2)))
                }
            },
            None => es,
        },
        None => es,
    }
}

/// The settings document with `agent-presets.default` set to `value`, or
/// removed when `value` is `None`.
pub open spec fn with_settings_default(root: YamlV, value: Option<Seq<char>>, path: Seq<char>) -> Result<
    YamlV,
    Seq<char>,
> {
    match as_mapping(root) {
        None => Err("DSH settings "@ + path + " must be a YAML mapping"@),
        Some(es) => match value {
            Some(d) => match entries_with_default(es, d) {
                Ok(es2) => Ok(retag(root, YamlV::Mapping(es2))),
                Err(m) => Err(m),
            },
            None => Ok(retag(root, YamlV::Mapping(entries_without_default(es)))),
        },
    }
}

/// The `agent-presets.default` setting of a DSH settings document.
pub fn settings_default(root: &Yaml) -> (res: Option<String>)
    ensures
        text::opt_string_view(res) == settings_default_of(root@),
{
    match yaml::mapping_of(root) {
        Some(es) => match yaml::get_ref(es, "agent-presets") {
            Some(ns) => match yaml::mapping_of(ns) {
                Some(n) => match yaml::get_str(n, "default") {
                    Some(s) => Some(s.clone()),
                    None => None,
                },
                None => None,
            },
            None => None,
        },
        None => None,
    }
}

#[verifier::rlimit(50)]
fn set_default_entry(es: Vec<(Yaml, Yaml)>, d: &str) -> (res: Result<Vec<(Yaml, Yaml)>, SearchError>)
    ensures
        match entries_with_default(view_entries(es@), d@) {
            Ok(e) => res matches Ok(r) && view_entries(r@) == e,
            Err(m) => res matches Err(SearchError::Install(x)) && x@ == m,
        },
{
    let ghost es0 = view_entries(es@);
    let mut es = es;
    if yaml::find_key(&es, "agent-presets").is_none() {
        yaml::insert_entry(&mut es, "agent-presets", yaml::empty_mapping());
    }
    let ghost es1 = view_entries(es@);
    proof {
        yaml::lemma_get_insert(es0, presets_key(), YamlV::Mapping(Seq::empty()));
        assert(get(es1, presets_key()) is Some);
    }
    let idx = yaml::find_key(&es, "agent-presets").unwrap();
    proof {
        yaml::lemma_index_of_none(es1, presets_key());
    }
    let ghost nsv = es1[idx as int].1;
    assert(get(es1, presets_key())->0 == nsv);
    match yaml::open_mapping_at(&mut es, idx) {
        None => Err(install_error("DSH settings agent-presets entry must be a mapping")),
        Some((tags, ns)) => {
            let mut ns = ns;
            let ghost opened = view_entries(es@);
            yaml::insert_entry(&mut ns, "default", yaml::string(d));
            yaml::close_mapping_at(&mut es, idx, tags, ns);
            proof {
                assert(view_entries(es@) =~= es1.update(
                    idx as int,
                    (es1[idx as int].0, retag(nsv, YamlV::Mapping(insert(as_mapping(nsv)->0, default_key(), YamlV::Str(d@))))),
                ));
            }
            Ok(es)
        },
    }
}

fn clear_default_entry(es: Vec<(Yaml, Yaml)>) -> (res: Vec<(Yaml, Yaml)>)
    ensures
        view_entries(res@) == entries_without_default(view_entries(es@)),
{
    let ghost es0 = view_entries(es@);
    let mut es = es;
    let idx = match yaml::find_key(&es, "agent-presets") {
        None => return es,
        Some(idx) => idx,
    };
    proof {
        yaml::lemma_index_of_none(es0, presets_key());
    }
    let ghost nsv = es0[idx as int].1;
    match yaml::open_mapping_at(&mut es, idx) {
        None => es,
        Some((tags, ns)) => {
            let mut ns = ns;
            yaml::remove_entry(&mut ns, "default");
            proof {
                yaml::lemma_view_entries(ns@);
            }
            let empty = ns.len() == 0;
            yaml::close_mapping_at(&mut es, idx, tags, ns);
            let ghost closed = view_entries(es@);
            proof {
                assert(closed =~= es0.update(
                    idx as int,
                    (es0[idx as int].0, retag(nsv, YamlV::Mapping(remove(as_mapping(nsv)->0, default_key())))),
                ));
            }
            if empty {
                yaml::remove_entry(&mut es, "agent-presets");
                proof {
                    yaml::lemma_remove_after_insert(es0, presets_key(), retag(nsv, YamlV::Mapping(remove(as_mapping(nsv)->0, default_key()))));
                }
            }
            es
        },
    }
}

/// Sets (or, with `None`, removes) the `agent-presets.default` setting of a
/// DSH settings document.  `path` names the file in error messages.
pub fn set_settings_default(root: Yaml, value: Option<&str>, path: &str) -> (res: Result<Yaml, SearchError>)
    ensures
        match with_settings_default(root@, text::opt_str_view(value), path@) {
            Ok(doc) => res matches Ok(r) && r@ == doc,
            Err(m) => res matches Err(SearchError::Install(x)) && x@ == m,
        },
{
    let ghost root_v = root@;
    let (tags, core) = yaml::split_tags(root);
    proof {
        yaml::lemma_untag_retag(root_v);
    }
    let es = match core {
        Yaml::Mapping(es) => es,
        _ => {
            let mut m = String::from_str("DSH settings ");
            m.append(path);
            m.append(" must be a YAML mapping");
            return Err(SearchError::Install(m));
        },
    };
    match value {
        Some(d) => {
            let es2 = set_default_entry(es, d)?;
            Ok(yaml::wrap_tags(tags, Yaml::Mapping(es2)))
        },
        None => {
            let es2 = clear_default_entry(es);
            Ok(yaml::wrap_tags(tags, Yaml::Mapping(es2)))
        },
    }
}

// ---------------------------------------------------------------------------
// Preset composition rows
// ---------------------------------------------------------------------------

/// The `id` of a composition row.
pub open spec fn row_id(row: YamlV) -> Option<Seq<char>> {
    match as_mapping(row) {
        Some(es) => str_field(es, "id"@),
        None => None,
    }
}

/// Index of the first row with id `id`.
pub open spec fn row_index(rows: Seq<YamlV>, id: Seq<char>) -> Option<int> {
    if exists|i: int| 0 <= i < rows.len() && row_id(rows[i]) == Some(id) {
        Some(
            choose|i: int|
                0 <= i < rows.len() && row_id(rows[i]) == Some(id) && forall|j: int|
                    0 <= j < i ==> row_id(rows[j]) != Some(id),
        )
    } else {
        None
    }
}

/// The `config` mapping of a row, read only.
pub open spec fn row_config(row: YamlV) -> Option<Seq<(YamlV, YamlV)>> {
    match as_mapping(row) {
        Some(es) => match get(es, key("config"@)) {
            Some(c) => as_mapping(c),
            None => None,
        },
        None => None,
    }
}

/// A row's entries once a missing `config` has been added as an empty mapping.
pub open spec fn entries_with_config(es: Seq<(YamlV, YamlV)>) -> Seq<(YamlV, YamlV)> {
    if get(es, key("config"@)) is Some {
        es
    } else {
        insert(es, key("config"@), YamlV::Mapping(Seq::empty()))
    }
}

/// The `config` mapping of a row about to be edited (a missing one counts as empty).
pub open spec fn config_for_edit(row: YamlV) -> Result<Seq<(YamlV, YamlV)>, Seq<char>> {
    match as_mapping(row) {
        None => Err("DSH preset row is not a mapping"@),
        Some(es) => match as_mapping(get(entries_with_config(es), key("config"@))->0) {
            Some(c) => Ok(c),
            None => Err("DSH preset row config is not a mapping"@),
        },
    }
}

/// The row with its `config` mapping replaced by `config`.
pub open spec fn row_with_config(row: YamlV, config: Seq<(YamlV, YamlV)>) -> YamlV {
    let es1 = entries_with_config(as_mapping(row)->0);
    let cv = get(es1, key("config"@))->0;
    retag(row, YamlV::Mapping(insert(es1, key("config"@), retag(cv, YamlV::Mapping(config)))))
}

/// A row taken apart for editing its `config` mapping.
struct RowEdit {
    row_tags: Vec<String>,
    entries: Vec<(Yaml, Yaml)>,
    index: usize,
    config_tags: Vec<String>,
    config: Vec<(Yaml, Yaml)>,
    original: Ghost<YamlV>,
}

impl RowEdit {
    /// The parts other than `config` still describe the original row.
    spec fn holds(&self) -> bool {
        let row = self.original@;
        let es1 = entries_with_config(as_mapping(row)->0);
        &&& as_mapping(row) is Some
        &&& text::string_views(self.row_tags@) == tags_of(row)
        &&& index_of(es1, key("config"@)) == Some(self.index as int)
        &&& self.index < self.entries@.len()
        &&& view_entries(self.entries@) == es1.update(self.index as int, (es1[self.index as int].0, YamlV::Null))
        &&& text::string_views(self.config_tags@) == tags_of(es1[self.index as int].1)
    }
}

fn open_row(row: Yaml) -> (res: Result<RowEdit, SearchError>)
    ensures
        match config_for_edit(row@) {
            Ok(c) => res matches Ok(e) && e.holds() && e.original@ == row@ && view_entries(e.config@) == c,
            Err(m) => res matches Err(SearchError::Install(x)) && x@ == m,
        },
{
    let ghost row_v = row@;
    let (row_tags, core) = yaml::split_tags(row);
    let mut entries = match core {
        Yaml::Mapping(es) => es,
        _ => return Err(install_error("DSH preset row is not a mapping")),
    };
    let ghost es0 = view_entries(entries@);
    if yaml::find_key(&entries, "config").is_none() {
        yaml::insert_entry(&mut entries, "config", yaml::empty_mapping());
    }
    let ghost es1 = view_entries(entries@);
    proof {
        yaml::lemma_get_insert(es0, key("config"@), YamlV::Mapping(Seq::empty()));
        assert(es1 == entries_with_config(es0));
    }
    let index = yaml::find_key(&entries, "config").unwrap();
    proof {
        yaml::lemma_index_of_none(es1, key("config"@));
    }
    match yaml::open_mapping_at(&mut entries, index) {
        None => Err(install_error("DSH preset row config is not a mapping")),
        Some((config_tags, config)) => Ok(
            RowEdit { row_tags, entries, index, config_tags, config, original: Ghost(row_v) },
        ),
    }
}

fn close_row(edit: RowEdit) -> (res: Yaml)
    requires
        edit.holds(),
    ensures
        res@ == row_with_config(edit.original@, view_entries(edit.config@)),
{
    let ghost row = edit.original@;
    let ghost es1 = entries_with_config(as_mapping(row)->0);
    let ghost new_cv = yaml::wrap(text::string_views(edit.config_tags@), YamlV::Mapping(view_entries(edit.config@)));
    let RowEdit { row_tags, entries, index, config_tags, config, original } = edit;
    let mut entries = entries;
    yaml::close_mapping_at(&mut entries, index, config_tags, config);
    proof {
        yaml::lemma_index_of_none(es1, key("config"@));
        assert(view_entries(entries@) =~= es1.update(index as int, (es1[index as int].0, new_cv)));
    }
    yaml::wrap_tags(row_tags, Yaml::Mapping(entries))
}

/// The sentence on which native tools remain available.
pub open spec fn availability(policy: DshNativeWebConfig) -> Seq<char> {
    if !policy.search && policy.fetch {
        "Native DSH web_search is disabled. Native web_fetch remains available only for retrieving a known URL directly."@
    } else if !policy.search && !policy.fetch {
        "Native DSH web_search and web_fetch are disabled. Use Hermes Search Agent for external web discovery and research."@
    } else if policy.search && !policy.fetch {
        "Native DSH web_search remains available. Native web_fetch is disabled; use Hermes Search Agent when a research agent should retrieve and synthesize external evidence."@
    } else {
        "Native DSH web_search and web_fetch remain available."@
    }
}

/// The routing guidance added to the managed preset's persona.
pub open spec fn routing(policy: DshNativeWebConfig) -> Seq<char> {
    ROUTING_MARKER@ + "\n\nFor web discovery and external research, use the Hermes Search Agent tools when they are the appropriate research path.\n\n- light_search: one narrow factual lookup or current fact.\n- medium_research: the default for ordinary multi-source research, comparisons, and several related questions.\n- deep_research: only for difficult evidence-driven investigations involving conflicting evidence, competing hypotheses, root cause, hidden subquestions, or consequential decisions.\n\nPrefer the lowest research level sufficient for the task. Do not use deep_research merely because a topic is technical or because more detail would be useful.\n\n"@
        + availability(policy)
}

/// The routing guidance added to the managed preset's persona: when to use
/// each research level, and which native tools remain.
pub fn routing_text(policy: &DshNativeWebConfig) -> (res: String)
    ensures
        res@ == routing(*policy),
{
    let availability = if !policy.search && policy.fetch {
        "Native DSH web_search is disabled. Native web_fetch remains available only for retrieving a known URL directly."
    } else if !policy.search && !policy.fetch {
        "Native DSH web_search and web_fetch are disabled. Use Hermes Search Agent for external web discovery and research."
    } else if policy.search && !policy.fetch {
        "Native DSH web_search remains available. Native web_fetch is disabled; use Hermes Search Agent when a research agent should retrieve and synthesize external evidence."
    } else {
        "Native DSH web_search and web_fetch remain available."
    };
    let mut s = String::from_str(ROUTING_MARKER);
    s.append("\n\nFor web discovery and external research, use the Hermes Search Agent tools when they are the appropriate research path.\n\n- light_search: one narrow factual lookup or current fact.\n- medium_research: the default for ordinary multi-source research, comparisons, and several related questions.\n- deep_research: only for difficult evidence-driven investigations involving conflicting evidence, competing hypotheses, root cause, hidden subquestions, or consequential decisions.\n\nPrefer the lowest research level sufficient for the task. Do not use deep_research merely because a topic is technical or because more detail would be useful.\n\n");
    s.append(availability);
    s
}

fn row_id_of(row: &Yaml) -> (res: Option<&String>)
    ensures
        match res {
            Some(s) => row_id(row@) == Some(s@),
            None => row_id(row@) is None,
        },
{
    match yaml::mapping_of(row) {
        Some(es) => yaml::get_str(es, "id"),
        None => None,
    }
}

pub proof fn lemma_row_index(rows: Seq<YamlV>, id: Seq<char>, i: int)
    requires
        0 <= i < rows.len(),
        row_id(rows[i]) == Some(id),
        forall|j: int| 0 <= j < i ==> row_id(rows[j]) != Some(id),
    ensures
        row_index(rows, id) == Some(i),
{
    let c = choose|c: int|
        0 <= c < rows.len() && row_id(rows[c]) == Some(id) && forall|j: int| 0 <= j < c ==> row_id(rows[j]) != Some(id);
    assert(c == i) by {
        if c < i {
        } else if c > i {
        }
    }
}

/// Index of the first row with id `id`.
fn find_row(rows: &Vec<Yaml>, id: &str) -> (res: Option<usize>)
    ensures
        match res {
            Some(i) => i < rows@.len() && row_index(view_items(rows@), id@) == Some(i as int),
            None => row_index(view_items(rows@), id@) is None,
        },
{
    proof {
        yaml::lemma_view_items(rows@);
    }
    let target = String::from_str(id);
    let mut i: usize = 0;
    while i < rows.len()
        invariant
            i <= rows@.len(),
            target@ == id@,
            view_items(rows@).len() == rows@.len(),
            forall|j: int| 0 <= j < rows@.len() ==> #[trigger] view_items(rows@)[j] == yaml::view_yaml(rows@[j]),
            forall|j: int| 0 <= j < i ==> row_id(view_items(rows@)[j]) != Some(id@),
        decreases rows.len() - i,
    {
        let hit = match row_id_of(&rows[i]) {
            Some(s) => *s == target,
            None => false,
        };
        if hit {
            proof {
                lemma_row_index(view_items(rows@), id@, i as int);
            }
            return Some(i);
        }
        i = i + 1;
    }
    None
}

/// The `config` mapping of a row, read only.
fn row_config_of(row: &Yaml) -> (res: Result<&Vec<(Yaml, Yaml)>, SearchError>)
    ensures
        match row_config(row@) {
            Some(c) => res matches Ok(es) && view_entries(es@) == c,
            None => res matches Err(SearchError::Install(m)) && m@ == "DSH preset row has no mapping config"@,
        },
{
    let found = match yaml::mapping_of(row) {
        Some(es) => match yaml::get_ref(es, "config") {
            Some(c) => yaml::mapping_of(c),
            None => None,
        },
        None => None,
    };
    match found {
        Some(c) => Ok(c),
        None => Err(install_error("DSH preset row has no mapping config")),
    }
}

/// What a managed preset currently says.
#[derive(Debug, PartialEq, Eq, Structural)]
pub struct PresetInspection {
    pub search: bool,
    pub fetch: bool,
    pub has_routing: bool,
}

/// The native web flags of the `tool-web` row; a missing flag counts as enabled.
pub open spec fn tool_flags_of(rows: Seq<YamlV>) -> Result<(bool, bool), Seq<char>> {
    match row_index(rows, "tool-web"@) {
        None => Err("managed DSH preset has no tool-web row"@),
        Some(i) => match row_config(rows[i]) {
            None => Err("DSH preset row has no mapping config"@),
            Some(c) => Ok(
                (
                    match bool_field(c, "search"@) {
                        Some(b) => b,
                        None => true,
                    },
                    match bool_field(c, "fetch"@) {
                        Some(b) => b,
                        None => true,
                    },
                ),
            ),
        },
    }
}

/// Whether the persona's text carries the routing guidance.
pub open spec fn routing_of(rows: Seq<YamlV>) -> Result<bool, Seq<char>> {
    match row_index(rows, "persona"@) {
        None => Err("managed DSH preset has no persona row"@),
        Some(j) => match row_config(rows[j]) {
            None => Err("DSH preset row has no mapping config"@),
            Some(pc) => Ok(
                match str_field(pc, "text"@) {
                    Some(t) => text::contains(t, ROUTING_MARKER@),
                    None => false,
                },
            ),
        },
    }
}

/// The native web state and routing guidance of a managed preset's
/// composition document.
pub open spec fn inspection_of(doc: YamlV, path: Seq<char>) -> Result<(bool, bool, bool), Seq<char>> {
    match as_sequence(doc) {
        None => Err("managed preset "@ + path + " is not a YAML sequence"@),
        Some(rows) => match tool_flags_of(rows) {
            Err(m) => Err(m),
            Ok((search, fetch)) => match routing_of(rows) {
                Err(m) => Err(m),
                Ok(has_routing) => Ok((search, fetch, has_routing)),
            },
        },
    }
}

fn tool_flags(rows: &Vec<Yaml>) -> (res: Result<(bool, bool), SearchError>)
    ensures
        match tool_flags_of(view_items(rows@)) {
            Ok(f) => res == Ok::<(bool, bool), SearchError>(f),
            Err(m) => res matches Err(SearchError::Install(x)) && x@ == m,
        },
{
    proof {
        yaml::lemma_view_items(rows@);
    }
    let tool = match find_row(rows, "tool-web") {
        Some(i) => &rows[i],
        None => return Err(install_error("managed DSH preset has no tool-web row")),
    };
    let config = row_config_of(tool)?;
    let search = match yaml::get_bool(config, "search") {
        Some(b) => b,
        None => true,
    };
    let fetch = match yaml::get_bool(config, "fetch") {
        Some(b) => b,
        None => true,
    };
    Ok((search, fetch))
}

fn routing_present(rows: &Vec<Yaml>) -> (res: Result<bool, SearchError>)
    ensures
        match routing_of(view_items(rows@)) {
            Ok(b) => res == Ok::<bool, SearchError>(b),
            Err(m) => res matches Err(SearchError::Install(x)) && x@ == m,
        },
{
    proof {
        yaml::lemma_view_items(rows@);
    }
    let persona = match find_row(rows, "persona") {
        Some(j) => &rows[j],
        None => return Err(install_error("managed DSH preset has no persona row")),
    };
    let persona_config = row_config_of(persona)?;
    match yaml::get_str(persona_config, "text") {
        Some(t) => {
            let cs = text::chars_of(t.as_str());
            let marker = text::chars_of(ROUTING_MARKER);
            Ok(text::find_chars(&cs, &marker, 0).is_some())
        },
        None => Ok(false),
    }
}

/// Reads the native web state and the routing guidance of a managed
/// preset's composition document.  `path` names the file in messages.
pub fn inspect_preset(doc: &Yaml, path: &str) -> (res: Result<PresetInspection, SearchError>)
    ensures
        match inspection_of(doc@, path@) {
            Ok((search, fetch, has_routing)) => res matches Ok(p) && p.search == search && p.fetch
                == fetch && p.has_routing == has_routing,
            Err(m) => res matches Err(SearchError::Install(x)) && x@ == m,
        },
{
    let rows = match yaml::sequence_of(doc) {
        Some(rows) => rows,
        None => {
            let mut m = String::from_str("managed preset ");
            m.append(path);
            m.append(" is not a YAML sequence");
            return Err(SearchError::Install(m));
        },
    };
    let (search, fetch) = tool_flags(rows)?;
    let has_routing = routing_present(rows)?;
    Ok(PresetInspection { search, fetch, has_routing })
}

/// The rows with the `tool-web` row's native web flags set to the policy.
#[verifier::opaque]
pub open spec fn rows_with_flags(rows: Seq<YamlV>, source: Seq<char>, policy: DshNativeWebConfig) -> Result<Seq<YamlV>, Seq<char>> {
    match row_index(rows, "tool-web"@) {
        None => Err("DSH preset "@ + source + " does not expose the native tool-web row"@),
        Some(i) => match config_for_edit(rows[i]) {
            Err(m) => Err(m),
            Ok(c) => Ok(
                rows.update(
                    i,
                    row_with_config(
                        rows[i],
                        insert(
                            insert(c, key("search"@), YamlV::Bool(policy.search)),
                            key("fetch"@),
                            YamlV::Bool(policy.fetch),
                        ),
                    ),
                ),
            ),
        },
    }
}

/// The rows with `note` appended, after a blank line, to the persona's text
/// (its trailing white space removed first).
#[verifier::opaque]
pub open spec fn rows_with_note(rows: Seq<YamlV>, source: Seq<char>, note: Seq<char>) -> Result<Seq<YamlV>, Seq<char>> {
    match row_index(rows, "persona"@) {
        None => Err("DSH preset "@ + source + " has no persona row for routing guidance"@),
        Some(j) => match config_for_edit(rows[j]) {
            Err(m) => Err(m),
            Ok(pc) => match str_field(pc, "text"@) {
                None => Err("DSH preset "@ + source + " persona has no text"@),
                Some(t) => Ok(
                    rows.update(
                        j,
                        row_with_config(
                            rows[j],
                            insert(pc, key("text"@), YamlV::Str(text::trim_end(t) + "\n\n"@ + note)),
                        ),
                    ),
                ),
            },
        },
    }
}

/// The composition document of the managed preset: the `tool-web` row's
/// flags set to the policy, and the routing guidance appended to the
/// persona's text.
pub open spec fn modified_preset(doc: YamlV, source: Seq<char>, policy: DshNativeWebConfig, path: Seq<char>) -> Result<YamlV, Seq<char>> {
    match as_sequence(doc) {
        None => Err("DSH preset "@ + path + " is not a YAML sequence"@),
        Some(rows) => match rows_with_flags(rows, source, policy) {
            Err(m) => Err(m),
            Ok(rows1) => match rows_with_note(rows1, source, routing(policy)) {
                Err(m) => Err(m),
                Ok(rows2) => Ok(retag(doc, YamlV::Sequence(rows2))),
            },
        },
    }
}

fn flags_step(rows: &mut Vec<Yaml>, source: &str, policy: &DshNativeWebConfig) -> (res: Result<(), SearchError>)
    ensures
        match rows_with_flags(view_items(old(rows)@), source@, *policy) {
            Err(m) => res matches Err(SearchError::Install(x)) && x@ == m,
            Ok(r) => res is Ok && view_items(final(rows)@) == r,
        },
{
    reveal(rows_with_flags);
    let i = match find_row(rows, "tool-web") {
        Some(i) => i,
        None => {
            let mut m = String::from_str("DSH preset ");
            m.append(source);
            m.append(" does not expose the native tool-web row");
            return Err(SearchError::Install(m));
        },
    };
    set_tool_flags(rows, i, policy)
}

fn note_step(rows: &mut Vec<Yaml>, source: &str, note: &String) -> (res: Result<(), SearchError>)
    ensures
        match rows_with_note(view_items(old(rows)@), source@, note@) {
            Err(m) => res matches Err(SearchError::Install(x)) && x@ == m,
            Ok(r) => res is Ok && view_items(final(rows)@) == r,
        },
{
    reveal(rows_with_note);
    let j = match find_row(rows, "persona") {
        Some(j) => j,
        None => {
            let mut m = String::from_str("DSH preset ");
            m.append(source);
            m.append(" has no persona row for routing guidance");
            return Err(SearchError::Install(m));
        },
    };
    append_routing(rows, j, source, note)
}

#[verifier::spinoff_prover]
#[verifier::rlimit(40)]
fn set_tool_flags(rows: &mut Vec<Yaml>, i: usize, policy: &DshNativeWebConfig) -> (res: Result<(), SearchError>)
    requires
        i < old(rows)@.len(),
    ensures
        match config_for_edit(view_items(old(rows)@)[i as int]) {
            Err(m) => res matches Err(SearchError::Install(x)) && x@ == m,
            Ok(c) => res is Ok && view_items(final(rows)@) == view_items(old(rows)@).update(
                i as int,
                row_with_config(
                    view_items(old(rows)@)[i as int],
                    insert(insert(c, key("search"@), YamlV::Bool(policy.search)), key("fetch"@), YamlV::Bool(policy.fetch)),
                ),
            ),
        },
{
    proof {
        yaml::lemma_view_items(old(rows)@);
    }
    let ghost before = rows@;
    let row = yaml::take_item(rows, i);
    let mut edit = match open_row(row) {
        Ok(e) => e,
        Err(e) => {
            return Err(e);
        },
    };
    yaml::insert_entry(&mut edit.config, "search", Yaml::Bool(policy.search));
    yaml::insert_entry(&mut edit.config, "fetch", Yaml::Bool(policy.fetch));
    let new_row = close_row(edit);
    yaml::put_item(rows, i, new_row);
    proof {
        assert(rows@ =~= before.update(i as int, new_row));
        yaml::lemma_view_items_update(before, i as int, new_row);
    }
    Ok(())
}

#[verifier::spinoff_prover]
#[verifier::rlimit(60)]
fn append_routing(rows: &mut Vec<Yaml>, j: usize, source: &str, routing_note: &String) -> (res: Result<(), SearchError>)
    requires
        j < old(rows)@.len(),
    ensures
        match config_for_edit(view_items(old(rows)@)[j as int]) {
            Err(m) => res matches Err(SearchError::Install(x)) && x@ == m,
            Ok(pc) => match str_field(pc, "text"@) {
                None => res matches Err(SearchError::Install(x)) && x@ == "DSH preset "@ + source@ + " persona has no text"@,
                Some(t) => res is Ok && view_items(final(rows)@) == view_items(old(rows)@).update(
                    j as int,
                    row_with_config(
                        view_items(old(rows)@)[j as int],
                        insert(pc, key("text"@), YamlV::Str(text::trim_end(t) + "\n\n"@ + routing_note@)),
                    ),
                ),
            },
        },
{
    proof {
        yaml::lemma_view_items(old(rows)@);
    }
    let ghost before = rows@;
    let row = yaml::take_item(rows, j);
    let mut edit = match open_row(row) {
        Ok(e) => e,
        Err(e) => {
            return Err(e);
        },
    };
    let current = match yaml::get_str(&edit.config, "text") {
        Some(t) => {
            let cs = text::chars_of(t.as_str());
            let k = text::trim_end_bound(&cs);
            text::string_from_range(&cs, 0, k)
        },
        None => {
            let mut m = String::from_str("DSH preset ");
            m.append(source);
            m.append(" persona has no text");
            return Err(SearchError::Install(m));
        },
    };
    let mut new_text = current;
    new_text.append("\n\n");
    new_text.append(routing_note.as_str());
    yaml::insert_entry(&mut edit.config, "text", Yaml::Str(new_text));
    let new_row = close_row(edit);
    yaml::put_item(rows, j, new_row);
    proof {
        assert(rows@ =~= before.update(j as int, new_row));
        yaml::lemma_view_items_update(before, j as int, new_row);
    }
    Ok(())
}

/// Edits a copied preset's composition document: the native web flags are
/// set to the policy and the routing guidance is appended to the persona's
/// text.  `source` names the copied preset and `path` the file in messages.
pub fn modify_preset(doc: Yaml, source: &str, policy: &DshNativeWebConfig, path: &str) -> (res: Result<Yaml, SearchError>)
    ensures
        match modified_preset(doc@, source@, *policy, path@) {
            Ok(d) => res matches Ok(r) && r@ == d,
            Err(m) => res matches Err(SearchError::Install(x)) && x@ == m,
        },
{
    let ghost doc_v = doc@;
    let (tags, core) = yaml::split_tags(doc);
    let mut rows = match core {
        Yaml::Sequence(rows) => rows,
        _ => {
            let mut m = String::from_str("DSH preset ");
            m.append(path);
            m.append(" is not a YAML sequence");
            return Err(SearchError::Install(m));
        },
    };
    flags_step(&mut rows, source, policy)?;
    let note = routing_text(policy);
    note_step(&mut rows, source, &note)?;
    Ok(yaml::wrap_tags(tags, Yaml::Sequence(rows)))
}


// ---------------------------------------------------------------------------
// Preset metadata
// ---------------------------------------------------------------------------

/// The metadata of the managed copy of preset `source`: renamed, described
/// as managed, and without its `order`.
pub open spec fn metadata_of(doc: YamlV, source: Seq<char>, path: Seq<char>) -> Result<YamlV, Seq<char>> {
    match as_mapping(doc) {
        None => Err("preset metadata "@ + path + " is not a mapping"@),
        Some(es) => Ok(
            retag(
                doc,
                YamlV::Mapping(
                    remove(
                        insert(
                            insert(es, key("name"@), YamlV::Str("Hermes Search Agent ("@ + source + ")"@)),
                            key("description"@),
                            YamlV::Str(
                                "HSA-managed copy of the "@ + source
                                    + " preset with user-selected native web tool policy."@,
                            ),
                        ),
                        key("order"@),
                    ),
                ),
            ),
        ),
    }
}

/// Rewrites a copied preset's metadata document (`preset.yml`).  `path`
/// names the file in messages.
pub fn rewrite_metadata(doc: Yaml, source: &str, path: &str) -> (res: Result<Yaml, SearchError>)
    ensures
        match metadata_of(doc@, source@, path@) {
            Ok(d) => res matches Ok(r) && r@ == d,
            Err(m) => res matches Err(SearchError::Install(x)) && x@ == m,
        },
{
    let ghost doc_v = doc@;
    let (tags, core) = yaml::split_tags(doc);
    proof {
        yaml::lemma_untag_retag(doc_v);
    }
    let mut es = match core {
        Yaml::Mapping(es) => es,
        _ => {
            let mut m = String::from_str("preset metadata ");
            m.append(path);
            m.append(" is not a mapping");
            return Err(SearchError::Install(m));
        },
    };
    let mut name = String::from_str("Hermes Search Agent (");
    name.append(source);
    name.append(")");
    yaml::insert_entry(&mut es, "name", Yaml::Str(name));
    let mut description = String::from_str("HSA-managed copy of the ");
    description.append(source);
    description.append(" preset with user-selected native web tool policy.");
    yaml::insert_entry(&mut es, "description", Yaml::Str(description));
    yaml::remove_entry(&mut es, "order");
    Ok(yaml::wrap_tags(tags, Yaml::Mapping(es)))
}

// ---------------------------------------------------------------------------
// The default preset before management
// ---------------------------------------------------------------------------

/// The default preset a patch row selects: an `agent-presets` row with a
/// mapping `config` whose `default` is a string.
#[verifier::opaque]
pub open spec fn patch_row_default(row: YamlV) -> Option<Seq<char>> {
    if row_id(row) == Some("agent-presets"@) {
        match row_config(row) {
            Some(c) => str_field(c, "default"@),
            None => None,
        }
    } else {
        None
    }
}

/// The default preset of the first row that selects one.
pub open spec fn first_patch_default(rows: Seq<YamlV>) -> Option<Seq<char>>
    decreases rows.len(),
{
    if rows.len() == 0 {
        None
    } else {
        match patch_row_default(rows[0]) {
            Some(d) => Some(d),
            None => first_patch_default(rows.drop_first()),
        }
    }
}

/// The preset DSH uses by default: the user setting, else the profile
/// patch's selection (a patch that is a plain sequence), else `standard`.
pub open spec fn default_preset(settings_default: Option<Seq<char>>, patch: Option<YamlV>) -> Seq<char> {
    match settings_default {
        Some(v) => v,
        None => match patch {
            Some(YamlV::Sequence(rows)) => match first_patch_default(rows) {
                Some(d) => d,
                None => "standard"@,
            },
            _ => "standard"@,
        },
    }
}

fn patch_default_of(row: &Yaml) -> (res: Option<&String>)
    ensures
        match res {
            Some(s) => patch_row_default(row@) == Some(s@),
            None => patch_row_default(row@) is None,
        },
{
    reveal(patch_row_default);
    let is_presets = match row_id_of(row) {
        Some(id) => {
            let want = String::from_str("agent-presets");
            *id == want
        },
        None => false,
    };
    if !is_presets {
        return None;
    }
    match row_config_of(row) {
        Ok(c) => yaml::get_str(c, "default"),
        Err(_) => None,
    }
}

/// The preset that DSH selects by default.  `settings_default` is the user
/// setting; `patch` is the profile's parsed patch, `None` when it is
/// missing or does not parse.
pub fn detect_default_preset(settings_default: Option<String>, patch: Option<&Yaml>) -> (res: String)
    ensures
        res@ == default_preset(
            text::opt_string_view(settings_default),
            match patch {
                Some(p) => Some(p@),
                None => None::<YamlV>,
            },
        ),
{
    let ghost settings_v = text::opt_string_view(settings_default);
    match settings_default {
        Some(v) => {
            return v;
        },
        None => {},
    }
    assert(settings_v is None);
    let rows = match patch {
        Some(Yaml::Sequence(rows)) => rows,
        _ => return String::from_str("standard"),
    };
    let ghost all = view_items(rows@);
    let ghost patch_v = match patch {
        Some(p) => Some(p@),
        None => None::<YamlV>,
    };
    assert(patch_v == Some(YamlV::Sequence(all)));
    proof {
        yaml::lemma_view_items(rows@);
    }
    let mut i: usize = 0;
    assert(all.subrange(0, all.len() as int) =~= all);
    while i < rows.len()
        invariant
            i <= rows@.len(),
            all == view_items(rows@),
            all.len() == rows@.len(),
            forall|j: int| 0 <= j < rows@.len() ==> #[trigger] all[j] == yaml::view_yaml(rows@[j]),
            first_patch_default(all) == first_patch_default(all.subrange(i as int, all.len() as int)),
            patch_v == Some(YamlV::Sequence(all)),
            settings_v is None,
            settings_v == text::opt_string_view(settings_default),
            patch_v == (match patch {
                Some(p) => Some(p@),
                None => None::<YamlV>,
            }),
        decreases rows.len() - i,
    {
        let ghost rest = all.subrange(i as int, all.len() as int);
        assert(rest[0] == rows@[i as int]@);
        assert(rest.drop_first() =~= all.subrange(i + 1, all.len() as int));
        if let Some(d) = patch_default_of(&rows[i]) {
            assert(first_patch_default(rest) == Some(d@));
            assert(first_patch_default(all) == Some(d@));
            let r = d.clone();
            assert(r@ == d@);
            assert(default_preset(settings_v, patch_v) == d@);
            return r;
        }
        i = i + 1;
    }
    assert(all.subrange(i as int, all.len() as int) =~= Seq::<YamlV>::empty());
    String::from_str("standard")
}

// ---------------------------------------------------------------------------
// Managing the preset
// ---------------------------------------------------------------------------

/// The id of the managed copy of preset `source`; it is never the id of
/// the preset it copies, so the copied preset is left as it is.
pub fn managed_preset_id(source: &str) -> (res: String)
    ensures
        res@ == "hsa-"@ + source@,
        res@ != source@,
{
    let mut s = String::from_str("hsa-");
    s.append(source);
    proof {
        reveal_strlit("hsa-");
        assert(s@.len() == source@.len() + 4);
    }
    s
}

/// Records that the user's choice was resolved, and tells whether a managed
/// preset is needed: it is when either native tool is disabled.
pub fn record_choice(native_web: &mut NativeWebManifest, policy: &DshNativeWebConfig) -> (needs_preset: bool)
    ensures
        final(native_web).choice_recorded,
        final(native_web).source_preset_id == old(native_web).source_preset_id,
        final(native_web).managed_preset_id == old(native_web).managed_preset_id,
        final(native_web).original_settings_default == old(native_web).original_settings_default,
        needs_preset == !(policy.search && policy.fetch),
{
    native_web.choice_recorded = true;
    !(policy.search && policy.fetch)
}

/// What the application read to find the preset to copy.
pub struct SourceProbe {
    /// The user's `agent-presets.default` setting.
    pub settings_default: Result<Option<String>, SearchError>,
    /// The profile's parsed patch: `None` when missing or unparsable.
    pub patch: Result<Option<Yaml>, SearchError>,
}

/// The preset to copy: the one recorded earlier, else the current default,
/// which is then recorded together with the setting it came from.
pub fn choose_source(native_web: &mut NativeWebManifest, probe: SourceProbe) -> (res: Result<String, SearchError>)
    ensures
        match old(native_web).source_preset_id {
            Some(s) => res matches Ok(r) && r@ == s@ && *final(native_web) == *old(native_web),
            None => match probe.settings_default {
                Err(e) => res == Err::<String, SearchError>(e) && *final(native_web) == *old(native_web),
                Ok(Some(d)) => res matches Ok(r) && r@ == d@ && final(native_web).source_preset_id == Some(r)
                    && final(native_web).original_settings_default == Some(d) && final(native_web).managed_preset_id
                    == old(native_web).managed_preset_id && final(native_web).choice_recorded
                    == old(native_web).choice_recorded,
                Ok(None) => match probe.patch {
                    Err(e) => res == Err::<String, SearchError>(e) && *final(native_web) == *old(native_web),
                    Ok(p) => res matches Ok(r) && r@ == default_preset(
                        None,
                        match p {
                            Some(y) => Some(y@),
                            None => None::<YamlV>,
                        },
                    ) && final(native_web).source_preset_id == Some(r)
                        && final(native_web).original_settings_default is None
                        && final(native_web).managed_preset_id == old(native_web).managed_preset_id
                        && final(native_web).choice_recorded == old(native_web).choice_recorded,
                },
            },
        },
{
    if let Some(s) = &native_web.source_preset_id {
        return Ok(s.clone());
    }
    let SourceProbe { settings_default, patch } = probe;
    let current = settings_default?;
    let source = match &current {
        Some(d) => d.clone(),
        None => {
            let p = patch?;
            match &p {
                Some(y) => detect_default_preset(None, Some(y)),
                None => detect_default_preset(None, None),
            }
        },
    };
    native_web.original_settings_default = current;
    native_web.source_preset_id = Some(source.clone());
    Ok(source)
}

/// The outcome of checking that the directory `dir` is a preset owned by
/// this installation: it must be a directory whose ownership marker
/// (`marker`, `None` when unreadable) holds the installation id.
pub open spec fn owned(dir: Seq<char>, is_dir: bool, marker: Option<Seq<char>>, install_id: Seq<char>) -> Result<(), Seq<char>> {
    if !is_dir {
        Err("managed DSH preset path is not a directory: "@ + dir)
    } else {
        match marker {
            None => Err(
                "DSH preset "@ + dir + " already exists but is not owned by this Hermes Search Agent installation"@,
            ),
            Some(m) => if text::trim(m) != install_id {
                Err("DSH preset "@ + dir + " belongs to a different installation"@)
            } else {
                Ok(())
            },
        }
    }
}

/// Checks that a preset directory belongs to this installation.
pub fn ensure_owned(dir: &str, is_dir: bool, marker: Option<&str>, install_id: &str) -> (res: Result<(), SearchError>)
    ensures
        match owned(dir@, is_dir, text::opt_str_view(marker), install_id@) {
            Ok(()) => res is Ok,
            Err(m) => res matches Err(SearchError::Install(x)) && x@ == m,
        },
{
    if !is_dir {
        let mut m = String::from_str("managed DSH preset path is not a directory: ");
        m.append(dir);
        return Err(SearchError::Install(m));
    }
    match marker {
        None => {
            let mut m = String::from_str("DSH preset ");
            m.append(dir);
            m.append(" already exists but is not owned by this Hermes Search Agent installation");
            Err(SearchError::Install(m))
        },
        Some(t) => {
            let owner = text::trim_str(t);
            let id = String::from_str(install_id);
            if owner != id {
                let mut m = String::from_str("DSH preset ");
                m.append(dir);
                m.append(" belongs to a different installation");
                Err(SearchError::Install(m))
            } else {
                Ok(())
            }
        },
    }
}

/// Undoing the managed preset: the default setting to put back (when DSH
/// still selects the managed preset) and the preset to remove.
pub struct RestorePlan {
    pub reset_default: Option<Option<String>>,
    pub remove_preset: String,
}

/// What undoing the managed preset takes, given DSH's current default
/// setting; `None` when no managed preset is recorded.  Once the plan has
/// been carried out, the record forgets the preset.
pub fn restore(native_web: &NativeWebManifest, current_default: Option<&str>) -> (res: Option<RestorePlan>)
    ensures
        match native_web.managed_preset_id {
            None => res is None,
            Some(id) => res matches Some(p) && p.remove_preset@ == id@ && (if text::opt_str_view(current_default)
                == Some(id@) {
                p.reset_default == Some(native_web.original_settings_default)
            } else {
                p.reset_default is None
            }),
        },
{
    match &native_web.managed_preset_id {
        None => None,
        Some(id) => {
            let selected = match current_default {
                Some(c) => {
                    let c = String::from_str(c);
                    c == *id
                },
                None => false,
            };
            let reset_default = if selected {
                match &native_web.original_settings_default {
                    Some(o) => Some(Some(o.clone())),
                    None => Some(None),
                }
            } else {
                None
            };
            Some(RestorePlan { reset_default, remove_preset: id.clone() })
        },
    }
}

/// The managed preset directory to remove when an installation is rolled
/// back, if one is recorded (removed only when owned; failures ignored).
pub fn remove_current_owned_preset(paths: &AppPaths, manifest: &InstallManifest) -> (res: Option<String>)
    ensures
        match manifest.native_web.managed_preset_id {
            None => res is None,
            Some(id) => res matches Some(d) && d@ == joined(paths.user_presets_dir_of(), id@),
        },
{
    match &manifest.native_web.managed_preset_id {
        Some(id) => Some(paths.dsh_user_preset_dir(id.as_str())),
        None => None,
    }
}

// ---------------------------------------------------------------------------
// Checking the installed state
// ---------------------------------------------------------------------------


/// `true` or `false`, as `Display` writes a boolean.
pub open spec fn bool_text(b: bool) -> Seq<char> {
    if b {
        "true"@
    } else {
        "false"@
    }
}

fn bool_str(b: bool) -> (res: &'static str)
    ensures
        res@ == bool_text(b),
{
    if b {
        "true"
    } else {
        "false"
    }
}

/// What the application read of the managed preset and DSH's settings.
pub struct PresetProbe {
    /// The preset path is a directory.
    pub is_dir: bool,
    /// The preset's ownership marker, `None` when unreadable.
    pub marker: Option<String>,
    /// The preset's parsed composition document (`agent.cordis.yml`).
    pub document: Result<Yaml, SearchError>,
    /// DSH's `agent-presets.default` setting.
    pub settings_default: Result<Option<String>, SearchError>,
}

/// How checking the installed native web state ends.
pub enum VerifyOutcome {
    Consistent,
    Inconsistent(Seq<char>),
    DocumentUnreadable,
    SettingsUnreadable,
}

/// The check of a managed preset `id` in directory `dir` against the policy.
pub open spec fn preset_outcome(
    dir: Seq<char>,
    id: Seq<char>,
    policy: DshNativeWebConfig,
    install_id: Seq<char>,
    probe: PresetProbe,
) -> VerifyOutcome {
    match owned(dir, probe.is_dir, text::opt_string_view(probe.marker), install_id) {
        Err(m) => VerifyOutcome::Inconsistent(m),
        Ok(()) => match probe.document {
            Err(_) => VerifyOutcome::DocumentUnreadable,
            Ok(doc) => match inspection_of(doc@, joined(dir, "agent.cordis.yml"@)) {
                Err(m) => VerifyOutcome::Inconsistent(m),
                Ok((search, fetch, has_routing)) => if search != policy.search || fetch != policy.fetch {
                    VerifyOutcome::Inconsistent(
                        "managed preset native web state does not match config (expected search="@
                            + bool_text(policy.search) + ", fetch="@ + bool_text(policy.fetch) + "; found search="@
                            + bool_text(search) + ", fetch="@ + bool_text(fetch) + ")"@,
                    )
                } else if !has_routing {
                    VerifyOutcome::Inconsistent("managed DSH preset is missing Hermes research routing guidance"@)
                } else {
                    match probe.settings_default {
                        Err(_) => VerifyOutcome::SettingsUnreadable,
                        Ok(d) => if text::opt_string_view(d) != Some(id) {
                            VerifyOutcome::Inconsistent("DSH default preset is not the managed preset "@ + id)
                        } else {
                            VerifyOutcome::Consistent
                        },
                    }
                },
            },
        },
    }
}

/// The check of the installed native web state against the policy.
pub open spec fn verify_outcome(
    paths: AppPaths,
    policy: DshNativeWebConfig,
    managed: Option<Seq<char>>,
    install_id: Seq<char>,
    probe: Option<PresetProbe>,
) -> VerifyOutcome {
    if policy.search && policy.fetch {
        if managed is Some {
            VerifyOutcome::Inconsistent(
                "native web tools are configured to stay enabled, but a managed DSH preset is still recorded"@,
            )
        } else {
            VerifyOutcome::Consistent
        }
    } else {
        match managed {
            None => VerifyOutcome::Inconsistent(
                "native web tools are disabled in config but no managed DSH preset is recorded"@,
            ),
            Some(id) => preset_outcome(joined(paths.user_presets_dir_of(), id), id, policy, install_id, probe->0),
        }
    }
}

/// Checks that DSH's native web tools are as the policy says: with both
/// enabled no managed preset may be recorded; otherwise the recorded preset
/// must be owned, carry the policy's flags and the routing guidance, and be
/// DSH's default.  `probe` is what the application read of the recorded
/// preset; it is needed only when a tool is disabled and a preset recorded.
pub fn verify(paths: &AppPaths, policy: &DshNativeWebConfig, manifest: &InstallManifest, probe: Option<PresetProbe>) -> (res: Result<(), SearchError>)
    requires
        !(policy.search && policy.fetch) && manifest.native_web.managed_preset_id is Some ==> probe is Some,
    ensures
        match verify_outcome(*paths, *policy, text::opt_string_view(manifest.native_web.managed_preset_id), manifest.install_id@, probe) {
            VerifyOutcome::Consistent => res is Ok,
            VerifyOutcome::Inconsistent(m) => res matches Err(SearchError::Install(x)) && x@ == m,
            VerifyOutcome::DocumentUnreadable => probe matches Some(p) && (p.document matches Err(e) && res == Err::<(), SearchError>(e)),
            VerifyOutcome::SettingsUnreadable => probe matches Some(p) && (p.settings_default matches Err(e) && res == Err::<(), SearchError>(e)),
        },
{
    if policy.search && policy.fetch {
        if manifest.native_web.managed_preset_id.is_some() {
            return Err(SearchError::Install(String::from_str("native web tools are configured to stay enabled, but a managed DSH preset is still recorded")));
        }
        return Ok(());
    }
    let id = match &manifest.native_web.managed_preset_id {
        Some(id) => id,
        None => return Err(SearchError::Install(String::from_str("native web tools are disabled in config but no managed DSH preset is recorded"))),
    };
    let probe = match probe {
        Some(p) => p,
        None => {
            proof {
                assert(false);
            }
            return Ok(());
        },
    };
    let ghost probe_v = probe;
    let dir = paths.dsh_user_preset_dir(id.as_str());
    let PresetProbe { is_dir, marker, document, settings_default } = probe;
    match &marker {
        Some(m) => ensure_owned(dir.as_str(), is_dir, Some(m.as_str()), manifest.install_id.as_str())?,
        None => ensure_owned(dir.as_str(), is_dir, None, manifest.install_id.as_str())?,
    }
    let doc = document?;
    let path = crate::paths::join_path(dir.as_str(), "agent.cordis.yml");
    let actual = inspect_preset(&doc, path.as_str())?;
    if actual.search != policy.search || actual.fetch != policy.fetch {
        let mut m = String::from_str("managed preset native web state does not match config (expected search=");
        m.append(bool_str(policy.search));
        m.append(", fetch=");
        m.append(bool_str(policy.fetch));
        m.append("; found search=");
        m.append(bool_str(actual.search));
        m.append(", fetch=");
        m.append(bool_str(actual.fetch));
        m.append(")");
        return Err(SearchError::Install(m));
    }
    if !actual.has_routing {
        return Err(SearchError::Install(String::from_str("managed DSH preset is missing Hermes research routing guidance")));
    }
    let current = settings_default?;
    let selected = match &current {
        Some(c) => *c == *id,
        None => false,
    };
    if !selected {
        let mut m = String::from_str("DSH default preset is not the managed preset ");
        m.append(id.as_str());
        return Err(SearchError::Install(m));
    }
    Ok(())
}

/// A preset that is owned, reads back the policy with its guidance, and is
/// DSH's default passes the check.
pub proof fn lemma_preset_consistent(
    dir: Seq<char>,
    id: Seq<char>,
    policy: DshNativeWebConfig,
    install_id: Seq<char>,
    probe: PresetProbe,
)
    requires
        probe.is_dir,
        probe.marker matches Some(m) && text::trim(m@) == install_id,
        probe.document matches Ok(d) && inspection_of(d@, joined(dir, "agent.cordis.yml"@)) == Ok::<
            (bool, bool, bool),
            Seq<char>,
        >((policy.search, policy.fetch, true)),
        probe.settings_default matches Ok(sd) && text::opt_string_view(sd) == Some(id),
    ensures
        preset_outcome(dir, id, policy, install_id, probe) is Consistent,
{
    let o = owned(dir, probe.is_dir, text::opt_string_view(probe.marker), install_id);
    assert(o == Ok::<(), Seq<char>>(()));
    match probe.document {
        Ok(doc) => {
            let ins = inspection_of(doc@, joined(dir, "agent.cordis.yml"@));
            match ins {
                Ok((s, f, h)) => {
                    assert(s == policy.search && f == policy.fetch && h);
                    match probe.settings_default {
                        Ok(sd) => {
                            assert(text::opt_string_view(sd) == Some(id));
                        },
                        Err(_) => {},
                    }
                },
                Err(_) => {},
            }
        },
        Err(_) => {},
    }
}

} // verus!
