//! The managed MCP block in a DSH profile's `cordis.patch.yml`.
//!
//! The block is delimited by a BEGIN and an END marker line.  Installing
//! inserts it (or replaces the existing one); uninstalling cuts it out and
//! leaves the rest of the patch file as it was, trimmed.
use vstd::prelude::*;

use crate::error::{install_error, install_outcome, SearchError};
use crate::process::command_args;
use crate::yaml::{self, as_sequence, Yaml};
use crate::text::{self, all_ws, contains, find, find_from, has_prefix, occurs_at, trim, trim_end};

verus! {

pub const BEGIN: &'static str = "# BEGIN hermes-search-agent managed MCP";

pub const END: &'static str = "# END hermes-search-agent managed MCP";

pub open spec fn missing_begin() -> Seq<char> {
    "managed DSH block is malformed: missing BEGIN marker"@
}

pub open spec fn missing_end() -> Seq<char> {
    "managed DSH block is malformed: missing END marker"@
}

/// The managed block that registers the research MCP server under `server_name`.
pub open spec fn managed_block_text(server_name: Seq<char>) -> Seq<char> {
    BEGIN@ + "\n- insert:\n    - id: mcp-hermes-search\n      name: '@deepseek-ai/dsh-mcp-client'\n      config:\n        serverName: "@
        + server_name
        + "\n        transport: streamable-http\n        url: http://127.0.0.1:8932/mcp\n        headers: {}\n        toolCallTimeoutMs: 390000\n        failOnStartupError: false\n"@
        + END@
}

/// `existing` with the first managed block (from the first BEGIN marker to
/// the first END marker after it) replaced by `block`.
pub open spec fn replaced(existing: Seq<char>, block: Seq<char>) -> Result<Seq<char>, Seq<char>> {
    match find(existing, BEGIN@) {
        None => Err(missing_begin()),
        Some(start) => match find_from(existing, END@, start) {
            None => Err(missing_end()),
            Some(end_start) => Ok(
                existing.subrange(0, start) + block + existing.subrange(
                    end_start + END@.len(),
                    existing.len() as int,
                ),
            ),
        },
    }
}

/// `existing` with `block` put in: replacing a present block, replacing an
/// empty patch (blank or `[]`), or appended after a blank line.
pub open spec fn upserted(existing: Seq<char>, block: Seq<char>) -> Result<Seq<char>, Seq<char>> {
    if contains(existing, BEGIN@) || contains(existing, END@) {
        replaced(existing, block)
    } else if trim(existing).len() == 0 || trim(existing) == "[]"@ {
        Ok(block + "\n"@)
    } else {
        Ok(trim_end(existing) + "\n\n"@ + block + "\n"@)
    }
}

/// `existing` with the managed block cut out and the rest trimmed; an
/// emptied patch becomes `[]`.  Text without markers is returned unchanged.
pub open spec fn removed(existing: Seq<char>) -> Result<Seq<char>, Seq<char>> {
    if !contains(existing, BEGIN@) && !contains(existing, END@) {
        Ok(existing)
    } else {
        match find(existing, BEGIN@) {
            None => Err(missing_begin()),
            Some(start) => match find_from(existing, END@, start) {
                None => Err(missing_end()),
                Some(end_start) => {
                    let rest = trim(
                        existing.subrange(0, start) + existing.subrange(
                            end_start + END@.len(),
                            existing.len() as int,
                        ),
                    );
                    if rest.len() == 0 {
                        Ok("[]\n"@)
                    } else {
                        Ok(rest + "\n"@)
                    }
                },
            },
        }
    }
}

/// Text without a `#`, so no marker can start inside it.
pub open spec fn no_hash(s: Seq<char>) -> bool {
    forall|i: int| 0 <= i < s.len() ==> s[i] != '#'
}

/// The managed block for a server name that does not hold the END marker
/// has the shape that the upsert and remove laws ask of a block: it starts
/// with the BEGIN marker and holds the END marker once, at its end.
pub proof fn law_managed_block_is_block(server_name: Seq<char>)
    requires
        !contains(server_name, END@),
    ensures
        is_block(managed_block_text(server_name)),
{
    let m1 = "\n- insert:\n    - id: mcp-hermes-search\n      name: '@deepseek-ai/dsh-mcp-client'\n      config:\n        serverName: "@;
    let m2 = "\n        transport: streamable-http\n        url: http://127.0.0.1:8932/mcp\n        headers: {}\n        toolCallTimeoutMs: 390000\n        failOnStartupError: false\n"@;
    reveal_strlit("\n- insert:\n    - id: mcp-hermes-search\n      name: '@deepseek-ai/dsh-mcp-client'\n      config:\n        serverName: ");
    reveal_strlit("\n        transport: streamable-http\n        url: http://127.0.0.1:8932/mcp\n        headers: {}\n        toolCallTimeoutMs: 390000\n        failOnStartupError: false\n");
    reveal_strlit("# BEGIN hermes-search-agent managed MCP");
    reveal_strlit("# END hermes-search-agent managed MCP");
    let begin = BEGIN@;
    let end = END@;
    let sn = server_name;
    assert(no_hash(m1));
    assert(no_hash(m2));
    assert(m2[0] == '\n');
    assert(forall|i: int| 1 <= i < begin.len() ==> begin[i] != '#');
    assert(forall|i: int| 0 <= i < end.len() ==> end[i] != '\n');
    assert(begin[0] == '#' && begin[2] == 'B' && end[0] == '#' && end[2] == 'E');
    let pre = begin + m1;
    let post = m2 + end;
    let b = managed_block_text(server_name);
    assert(b =~= pre + sn + post);
    let o = pre.len() as int;
    let e = b.len() - end.len();
    assert(b.subrange(0, begin.len() as int) =~= begin);
    assert(b.subrange(e, b.len() as int) =~= end);
    assert forall|j: int| occurs_at(b, end, j) implies j == e by {
        assert(b.subrange(j, j + end.len())[0] == end[0]);
        assert(b[j] == '#');
        if j == 0 {
            assert(b.subrange(j, j + end.len())[2] == end[2]);
            assert(b[2] == begin[2]);
        } else if j < begin.len() {
            assert(b[j] == begin[j]);
        } else if j < o {
            assert(b[j] == m1[j - begin.len()]);
        } else if j < o + sn.len() {
            if j + end.len() <= o + sn.len() {
                text::lemma_occurs_left(pre + sn, post, end, j);
                text::lemma_occurs_right(pre, sn, end, j);
                text::lemma_find_none(sn, end);
            } else {
                assert(b[o + sn.len()] == m2[0]);
                text::lemma_occurs_not_across_newline(b, end, j, o + sn.len());
            }
        } else if j < o + sn.len() + m2.len() {
            assert(b[j] == m2[j - o - sn.len()]);
        }
    }
}

/// The managed block that registers the research MCP server under `server_name`.
pub fn managed_block(server_name: &str) -> (res: String)
    ensures
        res@ == managed_block_text(server_name@),
{
    let mut s = String::from_str(BEGIN);
    s.append("\n- insert:\n    - id: mcp-hermes-search\n      name: '@deepseek-ai/dsh-mcp-client'\n      config:\n        serverName: ");
    s.append(server_name);
    s.append("\n        transport: streamable-http\n        url: http://127.0.0.1:8932/mcp\n        headers: {}\n        toolCallTimeoutMs: 390000\n        failOnStartupError: false\n");
    s.append(END);
    s
}

/// The profile is integrated when its patch text (`None` when the file
/// cannot be read) carries both markers of the managed block.
pub fn is_integrated(patch: Option<&str>) -> (res: bool)
    ensures
        res == (patch matches Some(p) && contains(p@, BEGIN@) && contains(p@, END@)),
{
    let patch = match patch {
        Some(p) => p,
        None => return false,
    };
    let cs = text::chars_of(patch);
    let b = text::chars_of(BEGIN);
    let e = text::chars_of(END);
    text::find_chars(&cs, &b, 0).is_some() && text::find_chars(&cs, &e, 0).is_some()
}

/// Replaces the first managed block of `existing` by `block`.
pub fn replace_block(existing: &str, block: &str) -> (res: Result<String, SearchError>)
    ensures
        install_outcome(res, replaced(existing@, block@)),
{
    let cs = text::chars_of(existing);
    let b = text::chars_of(BEGIN);
    let e = text::chars_of(END);
    let start = match text::find_chars(&cs, &b, 0) {
        Some(s) => s,
        None => return Err(install_error("managed DSH block is malformed: missing BEGIN marker")),
    };
    let end_start = match text::find_chars(&cs, &e, start) {
        Some(s) => s,
        None => return Err(install_error("managed DSH block is malformed: missing END marker")),
    };
    proof {
        text::lemma_find_from(cs@, e@, start as int);
        assert(text::occurs_at(cs@, e@, end_start as int));
    }
    let n = cs.len();
    assert(end_start + e@.len() <= n);
    let end = end_start + e.len();
    let mut out = text::string_from_range(&cs, 0, start);
    out.append(block);
    let tail = text::string_from_range(&cs, end, cs.len());
    out.append(tail.as_str());
    Ok(out)
}

/// Puts the managed block into a patch file's text.
pub fn upsert_block(existing: &str, block: &str) -> (res: Result<String, SearchError>)
    ensures
        install_outcome(res, upserted(existing@, block@)),
{
    let cs = text::chars_of(existing);
    let b = text::chars_of(BEGIN);
    let e = text::chars_of(END);
    if text::find_chars(&cs, &b, 0).is_some() || text::find_chars(&cs, &e, 0).is_some() {
        return replace_block(existing, block);
    }
    let trimmed = text::trim_str(existing);
    if trimmed.as_str().is_empty() || trimmed == String::from_str("[]") {
        let mut out = String::from_str(block);
        out.append("\n");
        return Ok(out);
    }
    let k = text::trim_end_bound(&cs);
    let mut out = text::string_from_range(&cs, 0, k);
    out.append("\n\n");
    out.append(block);
    out.append("\n");
    Ok(out)
}

/// Cuts the managed block out of a patch file's text.
pub fn remove_block(existing: &str) -> (res: Result<String, SearchError>)
    ensures
        install_outcome(res, removed(existing@)),
{
    let cs = text::chars_of(existing);
    let b = text::chars_of(BEGIN);
    let e = text::chars_of(END);
    if text::find_chars(&cs, &b, 0).is_none() && text::find_chars(&cs, &e, 0).is_none() {
        return Ok(String::from_str(existing));
    }
    let start = match text::find_chars(&cs, &b, 0) {
        Some(s) => s,
        None => return Err(install_error("managed DSH block is malformed: missing BEGIN marker")),
    };
    let end_start = match text::find_chars(&cs, &e, start) {
        Some(s) => s,
        None => return Err(install_error("managed DSH block is malformed: missing END marker")),
    };
    proof {
        text::lemma_find_from(cs@, e@, start as int);
        assert(text::occurs_at(cs@, e@, end_start as int));
    }
    let n = cs.len();
    assert(end_start + e@.len() <= n);
    let end = end_start + e.len();
    let mut rest = text::chars_range(&cs, 0, start);
    let tail = text::chars_range(&cs, end, cs.len());
    text::append_chars(&mut rest, &tail);
    let remainder = text::trim_chars(&rest);
    if remainder.as_str().is_empty() {
        Ok(String::from_str("[]\n"))
    } else {
        let mut out = remainder;
        out.append("\n");
        Ok(out)
    }
}

/// A managed block: it opens with the BEGIN marker and its only END marker
/// closes it.
pub open spec fn is_block(b: Seq<char>) -> bool {
    &&& has_prefix(b, BEGIN@)
    &&& END@.len() <= b.len()
    &&& occurs_at(b, END@, b.len() - END@.len())
    &&& forall|j: int| occurs_at(b, END@, j) ==> j == b.len() - END@.len()
}

/// The text a patch without a managed block goes into the block in front of.
pub open spec fn kept_prefix(existing: Seq<char>) -> Seq<char> {
    if trim(existing).len() == 0 || trim(existing) == "[]"@ {
        Seq::empty()
    } else {
        trim_end(existing) + "\n\n"@
    }
}

proof fn lemma_marker_facts()
    ensures
        BEGIN@.len() > 0,
        END@.len() > 0,
        forall|i: int| 0 <= i < BEGIN@.len() ==> BEGIN@[i] != '\n',
        forall|i: int| 0 <= i < END@.len() ==> END@[i] != '\n',
        "\n"@ == seq!['\n'],
        "\n\n"@ == seq!['\n', '\n'],
        "[]\n"@ == seq!['[', ']', '\n'],
        "[]"@ == seq!['[', ']'],
{
    reveal_strlit("# BEGIN hermes-search-agent managed MCP");
    reveal_strlit("# END hermes-search-agent managed MCP");
    reveal_strlit("\n");
    reveal_strlit("\n\n");
    reveal_strlit("[]\n");
    reveal_strlit("[]");
}

/// Where the markers stand once a block has been put into a patch without
/// one: the first BEGIN opens the block and the first END after it closes it.
proof fn lemma_upserted_markers(existing: Seq<char>, block: Seq<char>)
    requires
        !contains(existing, BEGIN@),
        !contains(existing, END@),
        is_block(block),
    ensures
        upserted(existing, block) == Ok::<Seq<char>, Seq<char>>(kept_prefix(existing) + block + "\n"@),
        find(kept_prefix(existing) + block + "\n"@, BEGIN@) == Some(kept_prefix(existing).len() as int),
        find_from(kept_prefix(existing) + block + "\n"@, END@, kept_prefix(existing).len() as int)
            == Some(kept_prefix(existing).len() + block.len() - END@.len()),
{
    lemma_marker_facts();
    let pre = kept_prefix(existing);
    let u = pre + block + "\n"@;
    let pb = pre + block;
    text::lemma_find_none(existing, BEGIN@);
    text::lemma_find_none(existing, END@);
    if trim(existing).len() == 0 || trim(existing) == "[]"@ {
        assert(pre + block =~= block);
    } else {
        assert(pre + block + "\n"@ =~= trim_end(existing) + "\n\n"@ + block + "\n"@);
    }
    // The block's BEGIN is the first one.
    assert(occurs_at(u, BEGIN@, pre.len() as int)) by {
        text::lemma_occurs_left(pb, "\n"@, BEGIN@, pre.len() as int);
        text::lemma_occurs_right(pre, block, BEGIN@, pre.len() as int);
        assert(block.subrange(0, BEGIN@.len() as int) == BEGIN@);
    }
    assert forall|j: int| 0 <= j < pre.len() implies !occurs_at(u, BEGIN@, j) by {
        let te = trim_end(existing);
        text::lemma_trim_end_split(existing);
        let k = choose|k: int| 0 <= k <= existing.len() && trim_end(existing) == existing.subrange(0, k) && all_ws(existing.subrange(k, existing.len() as int))
            && (k > 0 ==> !text::is_ws(existing[k - 1]));
        assert(pre == te + "\n\n"@);
        if j + BEGIN@.len() <= te.len() {
            assert(u =~= te + ("\n\n"@ + block + "\n"@));
            text::lemma_occurs_left(te, "\n\n"@ + block + "\n"@, BEGIN@, j);
            assert(te + existing.subrange(k, existing.len() as int) =~= existing);
            text::lemma_occurs_left(te, existing.subrange(k, existing.len() as int), BEGIN@, j);
        } else {
            let p = if j <= te.len() { te.len() as int } else { j };
            assert(u[p] == '\n');
            text::lemma_occurs_not_across_newline(u, BEGIN@, j, p);
        }
    }
    text::lemma_find_from_is(u, BEGIN@, 0, pre.len() as int);
    // The block's END is the first one after its BEGIN.
    let e0 = pre.len() + block.len() - END@.len();
    assert(occurs_at(u, END@, e0)) by {
        text::lemma_occurs_left(pb, "\n"@, END@, e0);
        text::lemma_occurs_right(pre, block, END@, e0);
    }
    assert forall|j: int| pre.len() <= j < e0 implies !occurs_at(u, END@, j) by {
        text::lemma_occurs_left(pb, "\n"@, END@, j);
        text::lemma_occurs_right(pre, block, END@, j);
    }
    text::lemma_find_from_is(u, END@, pre.len() as int, e0);
}

/// Removing the block after putting it into a patch that had none gives
/// back the patch's own entries, trimmed (an emptied patch reads `[]`).
pub proof fn law_remove_after_upsert(existing: Seq<char>, block: Seq<char>)
    requires
        !contains(existing, BEGIN@),
        !contains(existing, END@),
        is_block(block),
    ensures
        upserted(existing, block) matches Ok(u) && removed(u) == Ok::<Seq<char>, Seq<char>>(
            if trim(existing).len() == 0 {
                "[]\n"@
            } else {
                trim(existing) + "\n"@
            },
        ),
{
    lemma_marker_facts();
    lemma_upserted_markers(existing, block);
    let pre = kept_prefix(existing);
    let u = pre + block + "\n"@;
    let start = pre.len() as int;
    let end = pre.len() + block.len() as int;
    assert(contains(u, BEGIN@));
    assert(u.subrange(0, start) =~= pre);
    assert(u.subrange(end, u.len() as int) =~= "\n"@);
    let joined = pre + "\n"@;
    assert(all_ws("\n"@)) by {
        assert forall|i: int| 0 <= i < "\n"@.len() implies text::is_ws(#[trigger] "\n"@[i]) by {}
    }
    if trim(existing).len() == 0 || trim(existing) == "[]"@ {
        assert(joined =~= "\n"@);
        text::lemma_trim_ws_suffix(Seq::empty(), "\n"@);
        assert(Seq::<char>::empty() + "\n"@ =~= "\n"@);
        assert(trim(Seq::<char>::empty()) =~= Seq::<char>::empty());
        if trim(existing).len() != 0 {
            assert(trim(existing) + "\n"@ =~= "[]\n"@);
        }
    } else {
        let te = trim_end(existing);
        let w = "\n\n"@ + "\n"@;
        assert(all_ws(w)) by {
            assert forall|i: int| 0 <= i < w.len() implies text::is_ws(#[trigger] w[i]) by {}
        }
        assert(joined =~= te + w);
        text::lemma_trim_ws_suffix(te, w);
        text::lemma_trim_of_trim_end(existing);
    }
}

/// Putting the block into a patch that had none, then putting it in again,
/// changes nothing.
pub proof fn law_upsert_idempotent(existing: Seq<char>, block: Seq<char>)
    requires
        !contains(existing, BEGIN@),
        !contains(existing, END@),
        is_block(block),
    ensures
        upserted(existing, block) matches Ok(u) && upserted(u, block) == Ok::<Seq<char>, Seq<char>>(u),
{
    lemma_marker_facts();
    lemma_upserted_markers(existing, block);
    let pre = kept_prefix(existing);
    let u = pre + block + "\n"@;
    let start = pre.len() as int;
    let end = pre.len() + block.len() as int;
    assert(contains(u, BEGIN@));
    assert(u.subrange(0, start) + block + u.subrange(end, u.len() as int) =~= u);
}

/// After the block has been put into a patch, the patch carries it.
pub proof fn law_upsert_integrates(existing: Seq<char>, block: Seq<char>)
    requires
        !contains(existing, BEGIN@),
        !contains(existing, END@),
        is_block(block),
    ensures
        upserted(existing, block) matches Ok(u) && contains(u, BEGIN@) && contains(u, END@),
{
    lemma_upserted_markers(existing, block);
    let pre = kept_prefix(existing);
    let u = pre + block + "\n"@;
    text::lemma_find_from(u, END@, pre.len() as int);
    text::lemma_find_none(u, END@);
}


/// The two ways of asking DSH to load a profile's configuration: the
/// profile itself, and the stock `web` profile as a fallback.
pub struct DumpConfig {
    pub primary: Vec<String>,
    pub fallback: Vec<String>,
}

/// The commands that make DSH load (and so initialise) profile `profile`.
pub fn dump_config_commands(profile: &str) -> (res: DumpConfig)
    ensures
        text::string_views(res.primary@) == seq!["--profile"@, profile@, "--dump-config"@],
        text::string_views(res.fallback@) == seq!["web"@, "--dump-config"@],
{
    DumpConfig {
        primary: command_args(vec!["--profile", profile, "--dump-config"]),
        fallback: command_args(vec!["web", "--dump-config"]),
    }
}

/// The error when neither command could initialise the profile.
pub fn initialize_error(profile: &str, primary_stderr: &str, fallback_stderr: &str) -> (res: SearchError)
    ensures
        res matches SearchError::Install(m) && m@ == "could not initialize DSH profile "@ + profile@ + ": "@
            + primary_stderr@ + "; fallback: "@ + fallback_stderr@,
{
    let mut m = String::from_str("could not initialize DSH profile ");
    m.append(profile);
    m.append(": ");
    m.append(primary_stderr);
    m.append("; fallback: ");
    m.append(fallback_stderr);
    SearchError::Install(m)
}

/// The error when DSH no longer loads the profile once the block is in.
pub fn rejected_patch_error(primary_stderr: &str, fallback_stderr: &str) -> (res: SearchError)
    ensures
        res matches SearchError::Install(m) && m@ == "DSH rejected the managed MCP patch: "@ + primary_stderr@
            + "; fallback: "@ + fallback_stderr@,
{
    let mut m = String::from_str("DSH rejected the managed MCP patch: ");
    m.append(primary_stderr);
    m.append("; fallback: ");
    m.append(fallback_stderr);
    SearchError::Install(m)
}

/// Whether a patch file may be edited: blank text may; otherwise it must
/// parse (`parsed`, with the parser's message on failure) to a sequence.
pub open spec fn patch_check(raw: Seq<char>, parsed: Result<yaml::YamlV, Seq<char>>, path: Seq<char>) -> Result<(), Seq<char>> {
    if text::is_blank(raw) {
        Ok(())
    } else {
        match parsed {
            Err(e) => Err("cannot safely edit "@ + path + ": invalid YAML: "@ + e),
            Ok(v) => if as_sequence(v) is Some {
                Ok(())
            } else {
                Err("cannot safely edit "@ + path + ": expected a top-level YAML sequence"@)
            },
        }
    }
}

/// Checks that a profile's patch file can be edited safely.
pub fn validate_patch(raw: &str, parsed: &Result<Yaml, String>, path: &str) -> (res: Result<(), SearchError>)
    ensures
        match patch_check(
            raw@,
            match parsed {
                Ok(v) => Ok(v@),
                Err(e) => Err(e@),
            },
            path@,
        ) {
            Ok(()) => res is Ok,
            Err(m) => res matches Err(SearchError::Install(x)) && x@ == m,
        },
{
    if text::blank(raw) {
        return Ok(());
    }
    match parsed {
        Err(e) => {
            let mut m = String::from_str("cannot safely edit ");
            m.append(path);
            m.append(": invalid YAML: ");
            m.append(e.as_str());
            Err(SearchError::Install(m))
        },
        Ok(v) => if yaml::sequence_of(v).is_some() {
            Ok(())
        } else {
            let mut m = String::from_str("cannot safely edit ");
            m.append(path);
            m.append(": expected a top-level YAML sequence");
            Err(SearchError::Install(m))
        },
    }
}

/// The name under which a profile's original patch is backed up.
pub fn backup_label(profile: &str) -> (res: String)
    ensures
        res@ == "dsh-"@ + profile@ + "-cordis.patch.yml"@,
{
    let mut s = String::from_str("dsh-");
    s.append(profile);
    s.append("-cordis.patch.yml");
    s
}
} // verus!
