//! What the managed preset and the default-preset setting give back once
//! written.
use vstd::prelude::*;

use crate::config::DshNativeWebConfig;
use crate::install::dsh_native_web::{
    availability, verify_outcome, PresetProbe, VerifyOutcome, config_for_edit, default_key, entries_with_config, entries_with_default, entries_without_default, inspection_of,
    modified_preset, presets_key, routing, routing_of, row_config, row_id, row_index, row_with_config, rows_with_flags,
    rows_with_note, settings_default_of, tool_flags_of, with_settings_default, ROUTING_MARKER, lemma_row_index,
};
use crate::paths::AppPaths;
use crate::text;
use crate::yaml::{
    self, as_mapping, as_sequence, bool_field, get, insert, key, remove, retag, str_field, unique_keys, YamlV,
};

verus! {

/// The `agent-presets` namespace of a settings document, when it is a mapping.
pub open spec fn namespace_of(root: YamlV) -> Option<Seq<(YamlV, YamlV)>> {
    match as_mapping(root) {
        Some(es) => match get(es, presets_key()) {
            Some(ns) => as_mapping(ns),
            None => None,
        },
        None => None,
    }
}

/// Reading DSH's default preset after setting it gives the value set, and
/// after clearing it gives none.  (Parsed mappings hold each key once.)
pub proof fn law_settings_default_roundtrip(root: YamlV, value: Option<Seq<char>>, path: Seq<char>)
    requires
        with_settings_default(root, value, path) is Ok,
        as_mapping(root) matches Some(es) && unique_keys(es),
        namespace_of(root) matches Some(ns) ==> unique_keys(ns),
    ensures
        settings_default_of(with_settings_default(root, value, path)->Ok_0) == value,
{
    let es = as_mapping(root)->0;
    match value {
        Some(d) => {
            let es1 = if get(es, presets_key()) is Some {
                es
            } else {
                insert(es, presets_key(), YamlV::Mapping(Seq::empty()))
            };
            yaml::lemma_get_insert(es, presets_key(), YamlV::Mapping(Seq::empty()));
            let nsv = get(es1, presets_key())->0;
            let ns = as_mapping(nsv)->0;
            let inner = insert(ns, default_key(), YamlV::Str(d));
            let es2 = insert(es1, presets_key(), retag(nsv, YamlV::Mapping(inner)));
            assert(entries_with_default(es, d) == Ok::<Seq<(YamlV, YamlV)>, Seq<char>>(es2));
            yaml::lemma_as_mapping_retag(root, es2);
            yaml::lemma_get_insert(es1, presets_key(), retag(nsv, YamlV::Mapping(inner)));
            yaml::lemma_as_mapping_retag(nsv, inner);
            yaml::lemma_get_insert(ns, default_key(), YamlV::Str(d));
        },
        None => {
            let es2 = entries_without_default(es);
            yaml::lemma_as_mapping_retag(root, es2);
            match get(es, presets_key()) {
                Some(nsv) => match as_mapping(nsv) {
                    Some(ns) => {
                        let ns2 = remove(ns, default_key());
                        if ns2.len() == 0 {
                            yaml::lemma_get_remove(es, presets_key());
                        } else {
                            yaml::lemma_get_insert(es, presets_key(), retag(nsv, YamlV::Mapping(ns2)));
                            yaml::lemma_as_mapping_retag(nsv, ns2);
                            yaml::lemma_get_remove(ns, default_key());
                        }
                    },
                    None => {},
                },
                None => {},
            }
        },
    }
}


/// The first row with id `id`, when there is one, is the least index
/// holding that id; otherwise no row holds it.
pub proof fn lemma_row_index_props(rows: Seq<YamlV>, id: Seq<char>)
    ensures
        match row_index(rows, id) {
            Some(k) => 0 <= k < rows.len() && row_id(rows[k]) == Some(id) && forall|j: int|
                0 <= j < k ==> row_id(rows[j]) != Some(id),
            None => forall|k: int| 0 <= k < rows.len() ==> row_id(rows[k]) != Some(id),
        },
{
    if exists|i: int| 0 <= i < rows.len() && row_id(rows[i]) == Some(id) {
        let w = choose|i: int| 0 <= i < rows.len() && row_id(rows[i]) == Some(id);
        lemma_least_row(rows, id, w);
    }
}

proof fn lemma_least_row(rows: Seq<YamlV>, id: Seq<char>, w: int)
    requires
        0 <= w < rows.len(),
        row_id(rows[w]) == Some(id),
    ensures
        exists|i: int|
            0 <= i < rows.len() && row_id(rows[i]) == Some(id) && forall|j: int| 0 <= j < i ==> row_id(rows[j]) != Some(id),
    decreases w,
{
    if exists|j: int| 0 <= j < w && row_id(rows[j]) == Some(id) {
        let j = choose|j: int| 0 <= j < w && row_id(rows[j]) == Some(id);
        lemma_least_row(rows, id, j);
    } else {
        assert(forall|j: int| 0 <= j < w ==> row_id(rows[j]) != Some(id));
    }
}

/// Replacing a row by one with the same id keeps where each id is found.
pub proof fn lemma_row_index_update(rows: Seq<YamlV>, i: int, r: YamlV, id: Seq<char>)
    requires
        0 <= i < rows.len(),
        row_id(r) == row_id(rows[i]),
    ensures
        row_index(rows.update(i, r), id) == row_index(rows, id),
{
    let rows2 = rows.update(i, r);
    lemma_row_index_props(rows, id);
    lemma_row_index_props(rows2, id);
    assert(forall|k: int| 0 <= k < rows.len() ==> row_id(#[trigger] rows2[k]) == row_id(rows[k]));
    match row_index(rows, id) {
        Some(k) => {
            lemma_row_index(rows2, id, k);
        },
        None => {
            if row_index(rows2, id) is Some {
                let k = row_index(rows2, id)->0;
                assert(row_id(rows[k]) == Some(id));
            }
        },
    }
}

/// Editing a row's `config` keeps its id and gives it the new `config`.
pub proof fn lemma_row_with_config(row: YamlV, c: Seq<(YamlV, YamlV)>)
    requires
        as_mapping(row) is Some,
    ensures
        row_id(row_with_config(row, c)) == row_id(row),
        row_config(row_with_config(row, c)) == Some(c),
{
    reveal_strlit("id");
    reveal_strlit("config");
    let es = as_mapping(row)->0;
    let es1 = entries_with_config(es);
    let cv = get(es1, key("config"@))->0;
    let es2 = insert(es1, key("config"@), retag(cv, YamlV::Mapping(c)));
    yaml::lemma_as_mapping_retag(row, es2);
    assert("id"@.len() == 2 && "config"@.len() == 6);
    assert(key("id"@) != key("config"@));
    yaml::lemma_get_insert_other(es1, key("config"@), retag(cv, YamlV::Mapping(c)), key("id"@));
    yaml::lemma_get_insert_other(es, key("config"@), YamlV::Mapping(Seq::empty()), key("id"@));
    yaml::lemma_get_insert(es1, key("config"@), retag(cv, YamlV::Mapping(c)));
    yaml::lemma_as_mapping_retag(cv, c);
}

/// `needle` is found in `hay` when it occurs at some position.
pub proof fn lemma_contains_at(hay: Seq<char>, needle: Seq<char>, k: int)
    requires
        text::occurs_at(hay, needle, k),
    ensures
        text::contains(hay, needle),
{
    text::lemma_find_from(hay, needle, 0);
}

/// Setting the flags of the `tool-web` row: the flags read back are the
/// policy's, and the persona row stays where it was.
proof fn lemma_flags_step(rows: Seq<YamlV>, source: Seq<char>, policy: DshNativeWebConfig)
    requires
        rows_with_flags(rows, source, policy) is Ok,
    ensures
        tool_flags_of(rows_with_flags(rows, source, policy)->Ok_0) == Ok::<(bool, bool), Seq<char>>(
            (policy.search, policy.fetch),
        ),
        row_index(rows_with_flags(rows, source, policy)->Ok_0, "persona"@) == row_index(rows, "persona"@),
{
    reveal(rows_with_flags);
    reveal_strlit("search");
    reveal_strlit("fetch");
    let t = row_index(rows, "tool-web"@)->0;
    lemma_row_index_props(rows, "tool-web"@);
    let c = config_for_edit(rows[t])->Ok_0;
    let c1 = insert(c, key("search"@), YamlV::Bool(policy.search));
    let c2 = insert(c1, key("fetch"@), YamlV::Bool(policy.fetch));
    let r = row_with_config(rows[t], c2);
    let rows1 = rows.update(t, r);
    assert(rows_with_flags(rows, source, policy)->Ok_0 == rows1);
    lemma_row_with_config(rows[t], c2);
    lemma_row_index_update(rows, t, r, "persona"@);
    lemma_row_index_update(rows, t, r, "tool-web"@);
    assert("search"@.len() == 6 && "fetch"@.len() == 5);
    assert(key("search"@) != key("fetch"@));
    yaml::lemma_get_insert_other(c1, key("fetch"@), YamlV::Bool(policy.fetch), key("search"@));
    yaml::lemma_get_insert(c, key("search"@), YamlV::Bool(policy.search));
    yaml::lemma_get_insert(c1, key("fetch"@), YamlV::Bool(policy.fetch));
    assert(bool_field(c2, "search"@) == Some(policy.search));
    assert(bool_field(c2, "fetch"@) == Some(policy.fetch));
}

/// Replacing the persona row (by one with the same id) keeps the native
/// web flags read back.
proof fn lemma_flags_kept(rows1: Seq<YamlV>, j: int, r: YamlV)
    requires
        0 <= j < rows1.len(),
        row_id(rows1[j]) == Some("persona"@),
        row_id(r) == row_id(rows1[j]),
        tool_flags_of(rows1) is Ok,
    ensures
        tool_flags_of(rows1.update(j, r)) == tool_flags_of(rows1),
{
    reveal_strlit("tool-web");
    reveal_strlit("persona");
    let rows2 = rows1.update(j, r);
    let t = row_index(rows1, "tool-web"@)->0;
    lemma_row_index_props(rows1, "tool-web"@);
    lemma_row_index_update(rows1, j, r, "tool-web"@);
    assert("tool-web"@.len() == 8 && "persona"@.len() == 7);
    assert(t != j);
    assert(rows2[t] == rows1[t]);
}

/// Appending a note that starts with the routing marker to a text leaves
/// the marker in it.
proof fn lemma_note_marked(old_text: Seq<char>, note: Seq<char>)
    requires
        text::has_prefix(note, ROUTING_MARKER@),
    ensures
        text::contains(text::trim_end(old_text) + "\n\n"@ + note, ROUTING_MARKER@),
{
    reveal_strlit("\n\n");
    let new_text = text::trim_end(old_text) + "\n\n"@ + note;
    let k: int = text::trim_end(old_text).len() as int + 2;
    assert(new_text.subrange(k, k + ROUTING_MARKER@.len()) =~= ROUTING_MARKER@);
    lemma_contains_at(new_text, ROUTING_MARKER@, k);
}

/// Appending the routing note to the persona's text: the guidance is then
/// found, and the native web flags read back as before.
#[verifier::rlimit(80)]
proof fn lemma_note_step(rows1: Seq<YamlV>, source: Seq<char>, note: Seq<char>)
    requires
        rows_with_note(rows1, source, note) is Ok,
        tool_flags_of(rows1) is Ok,
        text::has_prefix(note, ROUTING_MARKER@),
    ensures
        tool_flags_of(rows_with_note(rows1, source, note)->Ok_0) == tool_flags_of(rows1),
        routing_of(rows_with_note(rows1, source, note)->Ok_0) == Ok::<bool, Seq<char>>(true),
{
    reveal(rows_with_note);
    let j = row_index(rows1, "persona"@)->0;
    lemma_row_index_props(rows1, "persona"@);
    let pc = config_for_edit(rows1[j])->Ok_0;
    let old_text = str_field(pc, "text"@)->0;
    let new_text = text::trim_end(old_text) + "\n\n"@ + note;
    let pc2 = insert(pc, key("text"@), YamlV::Str(new_text));
    let r = row_with_config(rows1[j], pc2);
    let rows2 = rows1.update(j, r);
    assert(rows_with_note(rows1, source, note)->Ok_0 == rows2);
    lemma_row_with_config(rows1[j], pc2);
    lemma_row_index_update(rows1, j, r, "persona"@);
    lemma_flags_kept(rows1, j, r);
    yaml::lemma_get_insert(pc, key("text"@), YamlV::Str(new_text));
    lemma_note_marked(old_text, note);
    assert(row_config(rows2[j]) == Some(pc2));
    assert(str_field(pc2, "text"@) == Some(new_text));
}

/// The native web state and routing guidance read back from a managed
/// preset are the policy it was made for: the flags it was given, and the
/// guidance present.
#[verifier::rlimit(80)]
pub proof fn law_managed_preset_reads_back(
    doc: YamlV,
    source: Seq<char>,
    policy: DshNativeWebConfig,
    path: Seq<char>,
    read_path: Seq<char>,
)
    requires
        modified_preset(doc, source, policy, path) is Ok,
    ensures
        inspection_of(modified_preset(doc, source, policy, path)->Ok_0, read_path) == Ok::<
            (bool, bool, bool),
            Seq<char>,
        >((policy.search, policy.fetch, true)),
{
    let rows = as_sequence(doc)->0;
    let rows1 = rows_with_flags(rows, source, policy)->Ok_0;
    let rows2 = rows_with_note(rows1, source, routing(policy))->Ok_0;
    lemma_flags_step(rows, source, policy);
    assert(text::has_prefix(routing(policy), ROUTING_MARKER@)) by {
        assert(routing(policy).subrange(0, ROUTING_MARKER@.len() as int) =~= ROUTING_MARKER@);
    }
    lemma_note_step(rows1, source, routing(policy));
    yaml::lemma_as_sequence_retag(doc, rows2);
}
/// The value of key `k` in a settings document's `agent-presets` namespace;
/// none when the document has no such namespace mapping.
pub open spec fn namespace_get(root: YamlV, k: YamlV) -> Option<YamlV> {
    match namespace_of(root) {
        Some(ns) => get(ns, k),
        None => None,
    }
}

/// Setting or clearing DSH's default preset touches nothing else: every
/// other top-level key of the settings keeps its value, and so does every
/// other key of the `agent-presets` namespace.
pub proof fn law_settings_default_keeps_other_keys(root: YamlV, value: Option<Seq<char>>, path: Seq<char>, k: YamlV)
    requires
        with_settings_default(root, value, path) is Ok,
        as_mapping(root) matches Some(es) && unique_keys(es),
        namespace_of(root) matches Some(ns) ==> unique_keys(ns),
    ensures
        as_mapping(with_settings_default(root, value, path)->Ok_0) is Some,
        k != presets_key() ==> get(as_mapping(with_settings_default(root, value, path)->Ok_0)->0, k) == get(
            as_mapping(root)->0,
            k,
        ),
        k != default_key() ==> namespace_get(with_settings_default(root, value, path)->Ok_0, k) == namespace_get(
            root,
            k,
        ),
{
    let es = as_mapping(root)->0;
    match value {
        Some(d) => {
            let es1 = if get(es, presets_key()) is Some {
                es
            } else {
                insert(es, presets_key(), YamlV::Mapping(Seq::empty()))
            };
            yaml::lemma_get_insert(es, presets_key(), YamlV::Mapping(Seq::empty()));
            let nsv = get(es1, presets_key())->0;
            let ns = as_mapping(nsv)->0;
            let inner = insert(ns, default_key(), YamlV::Str(d));
            let nv = retag(nsv, YamlV::Mapping(inner));
            let es2 = insert(es1, presets_key(), nv);
            assert(entries_with_default(es, d) == Ok::<Seq<(YamlV, YamlV)>, Seq<char>>(es2));
            yaml::lemma_as_mapping_retag(root, es2);
            yaml::lemma_get_insert(es1, presets_key(), nv);
            yaml::lemma_as_mapping_retag(nsv, inner);
            if k != presets_key() {
                yaml::lemma_get_insert_other(es1, presets_key(), nv, k);
                yaml::lemma_get_insert_other(es, presets_key(), YamlV::Mapping(Seq::empty()), k);
            }
            if k != default_key() {
                yaml::lemma_get_insert_other(ns, default_key(), YamlV::Str(d), k);
                if get(es, presets_key()) is None {
                    yaml::lemma_index_of_none(Seq::<(YamlV, YamlV)>::empty(), k);
                }
            }
        },
        None => {
            let es2 = entries_without_default(es);
            yaml::lemma_as_mapping_retag(root, es2);
            match get(es, presets_key()) {
                Some(nsv) => match as_mapping(nsv) {
                    Some(ns) => {
                        let ns2 = remove(ns, default_key());
                        if k != default_key() {
                            yaml::lemma_get_remove_other(ns, default_key(), k);
                        }
                        if ns2.len() == 0 {
                            yaml::lemma_get_remove(es, presets_key());
                            if k != presets_key() {
                                yaml::lemma_get_remove_other(es, presets_key(), k);
                            }
                            yaml::lemma_index_of_none(ns2, k);
                        } else {
                            let nv = retag(nsv, YamlV::Mapping(ns2));
                            yaml::lemma_get_insert(es, presets_key(), nv);
                            yaml::lemma_as_mapping_retag(nsv, ns2);
                            if k != presets_key() {
                                yaml::lemma_get_insert_other(es, presets_key(), nv, k);
                            }
                        }
                    },
                    None => {},
                },
                None => {},
            }
        },
    }
}

/// The routing guidance opens with the routing marker and a blank line,
/// names the three research levels, and ends with the sentence on which
/// native tools remain available.
pub proof fn law_routing_text_shape(policy: DshNativeWebConfig)
    ensures
        text::has_prefix(routing(policy), ROUTING_MARKER@ + "\n\n"@),
        text::contains(routing(policy), "light_search"@),
        text::contains(routing(policy), "medium_research"@),
        text::contains(routing(policy), "deep_research"@),
        routing(policy).len() >= availability(policy).len(),
        routing(policy).subrange(routing(policy).len() - availability(policy).len(), routing(policy).len() as int)
            == availability(policy),
{
    let r = routing(policy);
    let mid = "\n\nFor web discovery and external research, use the Hermes Search Agent tools when they are the appropriate research path.\n\n- light_search: one narrow factual lookup or current fact.\n- medium_research: the default for ordinary multi-source research, comparisons, and several related questions.\n- deep_research: only for difficult evidence-driven investigations involving conflicting evidence, competing hypotheses, root cause, hidden subquestions, or consequential decisions.\n\nPrefer the lowest research level sufficient for the task. Do not use deep_research merely because a topic is technical or because more detail would be useful.\n\n"@;
    reveal_strlit("\n\nFor web discovery and external research, use the Hermes Search Agent tools when they are the appropriate research path.\n\n- light_search: one narrow factual lookup or current fact.\n- medium_research: the default for ordinary multi-source research, comparisons, and several related questions.\n- deep_research: only for difficult evidence-driven investigations involving conflicting evidence, competing hypotheses, root cause, hidden subquestions, or consequential decisions.\n\nPrefer the lowest research level sufficient for the task. Do not use deep_research merely because a topic is technical or because more detail would be useful.\n\n");
    reveal_strlit("HERMES SEARCH AGENT ROUTING");
    reveal_strlit("\n\n");
    reveal_strlit("light_search");
    reveal_strlit("medium_research");
    reveal_strlit("deep_research");
    let m = ROUTING_MARKER@;
    let a = availability(policy);
    assert(r =~= m + mid + a);
    assert(m.len() == 27);
    assert(mid.len() == 636);
    assert(r.subrange(0, (m + "\n\n"@).len() as int) =~= m + "\n\n"@);
    assert(r.subrange(r.len() - a.len(), r.len() as int) =~= a);
    assert(r.subrange(152int, 164int) =~= "light_search"@);
    lemma_contains_at(r, "light_search"@, 152int);
    assert(r.subrange(211int, 226int) =~= "medium_research"@);
    lemma_contains_at(r, "medium_research"@, 211int);
    assert(r.subrange(322int, 335int) =~= "deep_research"@);
    lemma_contains_at(r, "deep_research"@, 322int);
}

/// The routing guidance tells the four native web policies apart: two
/// policies that differ give different guidance.
pub proof fn law_routing_distinct(p: DshNativeWebConfig, q: DshNativeWebConfig)
    requires
        p != q,
    ensures
        routing(p) != routing(q),
{
    reveal_strlit("Native DSH web_search is disabled. Native web_fetch remains available only for retrieving a known URL directly.");
    reveal_strlit("Native DSH web_search and web_fetch are disabled. Use Hermes Search Agent for external web discovery and research.");
    reveal_strlit("Native DSH web_search remains available. Native web_fetch is disabled; use Hermes Search Agent when a research agent should retrieve and synthesize external evidence.");
    reveal_strlit("Native DSH web_search and web_fetch remain available.");
    assert(availability(p).len() != availability(q).len());
    law_routing_text_shape(p);
    law_routing_text_shape(q);
}

/// What `verify` is handed after `apply` produced a managed preset and
/// nothing changed since: the preset directory with the installation's
/// ownership marker, the preset document that `apply` wrote (the source
/// document edited for the policy), and DSH's settings after the managed
/// preset was made the default.  Checking them finds the state consistent.
pub proof fn law_verify_accepts_applied(
    paths: AppPaths,
    policy: DshNativeWebConfig,
    id: Seq<char>,
    install_id: Seq<char>,
    source_doc: YamlV,
    source: Seq<char>,
    write_path: Seq<char>,
    settings: YamlV,
    settings_path: Seq<char>,
    probe: PresetProbe,
)
    requires
        !(policy.search && policy.fetch),
        modified_preset(source_doc, source, policy, write_path) is Ok,
        with_settings_default(settings, Some(id), settings_path) is Ok,
        as_mapping(settings) matches Some(es) && unique_keys(es),
        namespace_of(settings) matches Some(ns) ==> unique_keys(ns),
        probe.is_dir,
        probe.marker matches Some(m) && text::trim(m@) == install_id,
        probe.document matches Ok(d) && d@ == modified_preset(source_doc, source, policy, write_path)->Ok_0,
        probe.settings_default matches Ok(sd) && text::opt_string_view(sd) == settings_default_of(
            with_settings_default(settings, Some(id), settings_path)->Ok_0,
        ),
    ensures
        verify_outcome(paths, policy, Some(id), install_id, Some(probe)) is Consistent,
{
    let dir = crate::paths::joined(paths.user_presets_dir_of(), id);
    law_managed_preset_reads_back(source_doc, source, policy, write_path, crate::paths::joined(dir, "agent.cordis.yml"@));
    law_settings_default_roundtrip(settings, Some(id), settings_path);
    crate::install::dsh_native_web::lemma_preset_consistent(dir, id, policy, install_id, probe);
}

/// With both native tools enabled, `apply` leaves no managed preset
/// recorded, and checking that state finds it consistent.
pub proof fn law_verify_accepts_unmanaged(
    paths: AppPaths,
    policy: DshNativeWebConfig,
    install_id: Seq<char>,
    probe: Option<PresetProbe>,
)
    requires
        policy.search && policy.fetch,
    ensures
        verify_outcome(paths, policy, None, install_id, probe) == VerifyOutcome::Consistent,
{
}
/// A text found in the closing part of another is found in the whole.
proof fn lemma_found_in_ending(r: Seq<char>, a: Seq<char>, off: int, phrase: Seq<char>)
    requires
        a.len() <= r.len(),
        r.subrange(r.len() - a.len(), r.len() as int) == a,
        0 <= off,
        off + phrase.len() <= a.len(),
        a.subrange(off, off + phrase.len()) == phrase,
    ensures
        text::contains(r, phrase),
{
    let at = r.len() - a.len() + off;
    assert(r.subrange(at, at + phrase.len()) =~= a.subrange(off, off + phrase.len()));
    lemma_contains_at(r, phrase, at);
}

/// The routing guidance tells the persona the real state of each native
/// tool: that web_search remains available or is disabled, and likewise
/// web_fetch, as the policy says.
pub proof fn law_routing_states_tools(policy: DshNativeWebConfig)
    ensures
        policy.search && !policy.fetch ==> text::contains(routing(policy), "web_search remains available"@)
            && text::contains(routing(policy), "web_fetch is disabled"@),
        !policy.search && policy.fetch ==> text::contains(routing(policy), "web_search is disabled"@)
            && text::contains(routing(policy), "web_fetch remains available"@),
        !policy.search && !policy.fetch ==> text::contains(
            routing(policy),
            "web_search and web_fetch are disabled"@,
        ),
        policy.search && policy.fetch ==> text::contains(
            routing(policy),
            "web_search and web_fetch remain available"@,
        ),
{
    law_routing_text_shape(policy);
    let r = routing(policy);
    let a = availability(policy);
    reveal_strlit("Native DSH web_search is disabled. Native web_fetch remains available only for retrieving a known URL directly.");
    reveal_strlit("Native DSH web_search and web_fetch are disabled. Use Hermes Search Agent for external web discovery and research.");
    reveal_strlit("Native DSH web_search remains available. Native web_fetch is disabled; use Hermes Search Agent when a research agent should retrieve and synthesize external evidence.");
    reveal_strlit("Native DSH web_search and web_fetch remain available.");
    reveal_strlit("web_search remains available");
    reveal_strlit("web_fetch is disabled");
    reveal_strlit("web_search is disabled");
    reveal_strlit("web_fetch remains available");
    reveal_strlit("web_search and web_fetch are disabled");
    reveal_strlit("web_search and web_fetch remain available");
    if policy.search && !policy.fetch {
        assert(a.subrange(11, 39) =~= "web_search remains available"@);
        lemma_found_in_ending(r, a, 11, "web_search remains available"@);
        assert(a.subrange(48, 69) =~= "web_fetch is disabled"@);
        lemma_found_in_ending(r, a, 48, "web_fetch is disabled"@);
    } else if !policy.search && policy.fetch {
        assert(a.subrange(11, 33) =~= "web_search is disabled"@);
        lemma_found_in_ending(r, a, 11, "web_search is disabled"@);
        assert(a.subrange(42, 69) =~= "web_fetch remains available"@);
        lemma_found_in_ending(r, a, 42, "web_fetch remains available"@);
    } else if !policy.search && !policy.fetch {
        assert(a.subrange(11, 48) =~= "web_search and web_fetch are disabled"@);
        lemma_found_in_ending(r, a, 11, "web_search and web_fetch are disabled"@);
    } else {
        assert(a.subrange(11, 52) =~= "web_search and web_fetch remain available"@);
        lemma_found_in_ending(r, a, 11, "web_search and web_fetch remain available"@);
    }
}
} // verus!
