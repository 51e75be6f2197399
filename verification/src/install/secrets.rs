//! The shared API secret and the Hermes profile's environment file.
use vstd::prelude::*;

use crate::fsutil::FileWrite;
use crate::paths::AppPaths;
use crate::text::{self, has_prefix, join, lines, trim_start, views};

verus! {

/// A lower-case hexadecimal digit.
pub open spec fn is_hex_digit(c: char) -> bool {
    ('0' <= c && c <= '9') || ('a' <= c && c <= 'f')
}

/// A random identifier of 32 lower-case hexadecimal digits
/// (`Uuid::new_v4().simple()`).  Its digits are random: only their form is
/// stated.
#[verifier::external_body]
fn random_hex32() -> (res: String)
    ensures
        res@.len() == 32,
        forall|i: int| 0 <= i < 32 ==> is_hex_digit(#[trigger] res@[i]),
{
    uuid::Uuid::new_v4().simple().to_string()
}

/// The stored secret when it is not blank, else a fresh random one made of
/// `hsa_` and 64 lower-case hexadecimal digits.
pub fn load_or_generate(stored: Option<String>) -> (res: String)
    ensures
        match stored {
            Some(v) if !text::is_blank(v@) => res@ == v@,
            _ => res@.len() == 68 && has_prefix(res@, "hsa_"@) && forall|i: int|
                4 <= i < 68 ==> is_hex_digit(#[trigger] res@[i]),
        },
{
    if let Some(v) = stored {
        if !text::blank(v.as_str()) {
            return v;
        }
    }
    let mut s = String::from_str("hsa_");
    let a = random_hex32();
    let b = random_hex32();
    s.append(a.as_str());
    s.append(b.as_str());
    proof {
        reveal_strlit("hsa_");
        assert(s@.subrange(0, 4) =~= "hsa_"@);
        assert forall|i: int| 4 <= i < 68 implies is_hex_digit(#[trigger] s@[i]) by {
            if i < 36 {
                assert(s@[i] == a@[i - 4]);
            } else {
                assert(s@[i] == b@[i - 36]);
            }
        }
    }
    s
}

/// The secrets file: the API key for the MCP service, readable by its owner only.
pub fn write(paths: &AppPaths, secret: &str) -> (res: FileWrite)
    ensures
        res.path@ == paths.secrets_file@,
        res.contents@ == "# Managed by hermes-search-agent. Owner read/write only.\nHERMES_RESEARCH_API_KEY="@ + secret@
            + "\n"@,
        res.mode == 0o600,
{
    let mut body = String::from_str("# Managed by hermes-search-agent. Owner read/write only.\nHERMES_RESEARCH_API_KEY=");
    body.append(secret);
    body.append("\n");
    FileWrite { path: paths.secrets_file.clone(), contents: body, mode: 0o600 }
}

/// `line` sets the variable whose assignment starts with `prefix` (leading
/// white space aside).
pub open spec fn is_key_line(line: Seq<char>, prefix: Seq<char>) -> bool {
    has_prefix(trim_start(line), prefix)
}

/// Index of the first line that sets the variable of `prefix`.
pub open spec fn key_line_index(ls: Seq<Seq<char>>, prefix: Seq<char>) -> Option<int> {
    if exists|i: int| 0 <= i < ls.len() && is_key_line(ls[i], prefix) {
        Some(
            choose|i: int|
                0 <= i < ls.len() && is_key_line(ls[i], prefix) && forall|j: int|
                    0 <= j < i ==> !is_key_line(ls[j], prefix),
        )
    } else {
        None
    }
}

/// The line `key=value`.
pub open spec fn env_line(k: Seq<char>, v: Seq<char>) -> Seq<char> {
    k + seq!['='] + v
}

/// The lines with the first assignment of `k` replaced by `k=v`, or with
/// `k=v` appended when there is none.
pub open spec fn merge_one(ls: Seq<Seq<char>>, k: Seq<char>, v: Seq<char>) -> Seq<Seq<char>> {
    match key_line_index(ls, k + seq!['=']) {
        Some(i) => ls.update(i, env_line(k, v)),
        None => ls.push(env_line(k, v)),
    }
}

/// The lines with every update applied in order.
pub open spec fn merge_all(ls: Seq<Seq<char>>, ups: Seq<(Seq<char>, Seq<char>)>) -> Seq<Seq<char>>
    decreases ups.len(),
{
    if ups.len() == 0 {
        ls
    } else {
        merge_all(merge_one(ls, ups[0].0, ups[0].1), ups.drop_first())
    }
}

pub open spec fn update_views(ups: Seq<(&str, &str)>) -> Seq<(Seq<char>, Seq<char>)> {
    ups.map_values(|p: (&str, &str)| (p.0@, p.1@))
}

/// The environment file after the updates: its lines, each update applied,
/// joined by newlines and ended by one.
pub open spec fn merged_env(existing: Seq<char>, ups: Seq<(Seq<char>, Seq<char>)>) -> Seq<char> {
    join(merge_all(lines(existing), ups), seq!['\n']).push('\n')
}

proof fn lemma_key_line_index(ls: Seq<Seq<char>>, prefix: Seq<char>, i: int)
    requires
        0 <= i < ls.len(),
        is_key_line(ls[i], prefix),
        forall|j: int| 0 <= j < i ==> !is_key_line(ls[j], prefix),
    ensures
        key_line_index(ls, prefix) == Some(i),
{
    let c = choose|c: int|
        0 <= c < ls.len() && is_key_line(ls[c], prefix) && forall|j: int| 0 <= j < c ==> !is_key_line(ls[j], prefix);
    assert(c == i) by {
        if c < i {
        } else if c > i {
        }
    }
}

/// The line sets the variable of `prefix`.
fn key_line(line: &Vec<char>, prefix: &Vec<char>) -> (res: bool)
    ensures
        res == is_key_line(line@, prefix@),
{
    let k = text::trim_start_bound(line);
    let hit = text::matches_at(line, prefix, k);
    proof {
        let t = line@.subrange(k as int, line@.len() as int);
        if prefix@.len() <= t.len() {
            assert(t.subrange(0, prefix@.len() as int) =~= line@.subrange(k as int, k + prefix@.len()));
        }
    }
    hit
}

/// Index of the first line that sets the variable of `prefix`.
fn find_key_line(ls: &Vec<Vec<char>>, prefix: &Vec<char>) -> (res: Option<usize>)
    ensures
        match res {
            Some(i) => i < ls@.len() && key_line_index(views(ls@), prefix@) == Some(i as int) && is_key_line(
                ls@[i as int]@,
                prefix@,
            ),
            None => key_line_index(views(ls@), prefix@) is None,
        },
{
    let mut i: usize = 0;
    while i < ls.len()
        invariant
            i <= ls@.len(),
            forall|j: int| 0 <= j < i ==> !is_key_line(#[trigger] views(ls@)[j], prefix@),
        decreases ls.len() - i,
    {
        if key_line(&ls[i], prefix) {
            proof {
                lemma_key_line_index(views(ls@), prefix@, i as int);
            }
            return Some(i);
        }
        assert(views(ls@)[i as int] == ls@[i as int]@);
        i = i + 1;
    }
    None
}

/// Sets `k=v` in the lines.
fn set_env_line(ls: &mut Vec<Vec<char>>, k: &str, v: &str)
    ensures
        views(final(ls)@) == merge_one(views(old(ls)@), k@, v@),
{
    let mut prefix = text::chars_of(k);
    prefix.push('=');
    let mut line = text::chars_of(k);
    line.push('=');
    let vs = text::chars_of(v);
    text::append_chars(&mut line, &vs);
    assert(line@ =~= env_line(k@, v@));
    assert(prefix@ =~= k@ + seq!['=']);
    let ghost before = ls@;
    match find_key_line(ls, &prefix) {
        Some(i) => {
            ls.set(i, line);
            assert(views(ls@) =~= views(before).update(i as int, env_line(k@, v@)));
        },
        None => {
            ls.push(line);
            assert(views(ls@) =~= views(before).push(env_line(k@, v@)));
        },
    }
}

/// The Hermes profile's environment file with each `(key, value)` set: the
/// first line assigning the key is replaced, or a line is appended; the
/// other lines stay as they were.  The result ends with a newline.
pub fn profile_env_merge(existing: &str, updates: &[(&str, &str)]) -> (res: String)
    ensures
        res@ == merged_env(existing@, update_views(updates@)),
{
    let ghost ups = update_views(updates@);
    let cs = text::chars_of(existing);
    let mut ls = text::split_lines(&cs);
    let mut u: usize = 0;
    assert(ups.subrange(0, ups.len() as int) =~= ups);
    while u < updates.len()
        invariant
            u <= updates@.len(),
            ups == update_views(updates@),
            ups.len() == updates@.len(),
            merge_all(lines(existing@), ups) == merge_all(views(ls@), ups.subrange(u as int, ups.len() as int)),
        decreases updates.len() - u,
    {
        let (k, v) = updates[u];
        let ghost rest = ups.subrange(u as int, ups.len() as int);
        assert(rest[0] == (k@, v@));
        assert(rest.drop_first() =~= ups.subrange(u + 1, ups.len() as int));
        set_env_line(&mut ls, k, v);
        u = u + 1;
    }
    assert(ups.subrange(u as int, ups.len() as int) =~= Seq::<(Seq<char>, Seq<char>)>::empty());
    assert(merge_all(lines(existing@), ups) == views(ls@));
    let sep = vec!['\n'];
    assert(sep@ =~= seq!['\n']);
    let mut body = text::join_chars(&ls, &sep);
    body.push('\n');
    text::string_from_chars(&body)
}

/// The value of the first assignment of `name` in an environment file.
pub open spec fn env_value_of(content: Seq<char>, name: Seq<char>) -> Option<Seq<char>> {
    let ls = lines(content);
    let prefix = name + seq!['='];
    match key_line_index(ls, prefix) {
        Some(i) => Some(trim_start(ls[i]).subrange(prefix.len() as int, trim_start(ls[i]).len() as int)),
        None => None,
    }
}

/// The value assigned to `name` by the first line that assigns it.
pub fn read_env_value(content: &str, name: &str) -> (res: Option<String>)
    ensures
        text::opt_string_view(res) == env_value_of(content@, name@),
{
    let cs = text::chars_of(content);
    let ls = text::split_lines(&cs);
    let mut prefix = text::chars_of(name);
    prefix.push('=');
    assert(prefix@ =~= name@ + seq!['=']);
    match find_key_line(&ls, &prefix) {
        Some(i) => {
            let line = &ls[i];
            let k = text::trim_start_bound(line);
            let n = line.len();
            let value = text::string_from_range(line, k + prefix.len(), n);
            proof {
                let t = trim_start(line@);
                assert(t == line@.subrange(k as int, n as int));
                assert(t.subrange(prefix@.len() as int, t.len() as int) =~= line@.subrange(k + prefix@.len(), n as int));
            }
            Some(value)
        },
        None => None,
    }
}


/// Reading lines: a line without a newline, then a newline, is one line.
pub proof fn lemma_lines_step(cur: Seq<char>, x: Seq<char>, rest: Seq<char>)
    requires
        forall|i: int| 0 <= i < x.len() ==> x[i] != '\n',
    ensures
        text::lines_from(cur, x + seq!['\n'] + rest) == seq![text::strip_cr(cur + x)] + text::lines_from(
            Seq::empty(),
            rest,
        ),
    decreases x.len(),
{
    if x.len() == 0 {
        assert(x + seq!['\n'] + rest =~= seq!['\n'] + rest);
        assert((seq!['\n'] + rest).drop_first() =~= rest);
        assert(cur + x =~= cur);
    } else {
        let s = x + seq!['\n'] + rest;
        assert(s[0] == x[0]);
        assert(s.drop_first() =~= x.drop_first() + seq!['\n'] + rest);
        assert(cur.push(x[0]) + x.drop_first() =~= cur + x);
        lemma_lines_step(cur.push(x[0]), x.drop_first(), rest);
    }
}

/// The API key written to the secrets file is the one read back from it,
/// for a key on one line that does not end in a carriage return (as the
/// generated keys are).
pub proof fn law_secret_reads_back(secret: Seq<char>)
    requires
        forall|i: int| 0 <= i < secret.len() ==> secret[i] != '\n',
        secret.len() > 0 ==> secret.last() != '\r',
    ensures
        env_value_of(
            "# Managed by hermes-search-agent. Owner read/write only.\nHERMES_RESEARCH_API_KEY="@ + secret + "\n"@,
            "HERMES_RESEARCH_API_KEY"@,
        ) == Some(secret),
{
    reveal_strlit("# Managed by hermes-search-agent. Owner read/write only.\nHERMES_RESEARCH_API_KEY=");
    reveal_strlit("HERMES_RESEARCH_API_KEY");
    reveal_strlit("\n");
    let header = "# Managed by hermes-search-agent. Owner read/write only."@;
    reveal_strlit("# Managed by hermes-search-agent. Owner read/write only.");
    let name = "HERMES_RESEARCH_API_KEY"@;
    let prefix = name + seq!['='];
    let line = prefix + secret;
    let content = "# Managed by hermes-search-agent. Owner read/write only.\nHERMES_RESEARCH_API_KEY="@ + secret + "\n"@;
    assert(content =~= header + seq!['\n'] + (line + seq!['\n'] + Seq::empty()));
    assert(forall|i: int| 0 <= i < header.len() ==> header[i] != '\n');
    lemma_lines_step(Seq::empty(), header, line + seq!['\n'] + Seq::empty());
    assert(forall|i: int| 0 <= i < line.len() ==> line[i] != '\n') by {
        assert forall|i: int| 0 <= i < line.len() implies line[i] != '\n' by {
            if i >= prefix.len() {
                assert(line[i] == secret[i - prefix.len()]);
            }
        }
    }
    lemma_lines_step(Seq::empty(), line, Seq::empty());
    assert(Seq::<char>::empty() + header =~= header);
    assert(Seq::<char>::empty() + line =~= line);
    assert(text::strip_cr(header) == header);
    assert(text::strip_cr(line) == line) by {
        if secret.len() == 0 {
            assert(line.last() == '=');
        } else {
            assert(line.last() == secret.last());
        }
    }
    let ls = text::lines(content);
    assert(ls =~= seq![header, line]);
    assert(text::trim_start(header) == header);
    assert(!is_key_line(header, prefix)) by {
        assert(header[0] == '#');
        assert(prefix[0] == 'H');
    }
    assert(text::trim_start(line) == line) by {
        assert(line[0] == 'H');
    }
    assert(is_key_line(line, prefix)) by {
        assert(line.subrange(0, prefix.len() as int) =~= prefix);
    }
    lemma_key_line_index(ls, prefix, 1);
    assert(line.subrange(prefix.len() as int, line.len() as int) =~= secret);
}

/// Text without newlines.
pub open spec fn one_line(s: Seq<char>) -> bool {
    forall|i: int| 0 <= i < s.len() ==> s[i] != '\n'
}

/// Joining from the front: the first part, the separator, then the rest joined.
pub proof fn lemma_join_front(ls: Seq<Seq<char>>, sep: Seq<char>)
    requires
        ls.len() >= 2,
    ensures
        join(ls, sep) == ls[0] + sep + join(ls.drop_first(), sep),
    decreases ls.len(),
{
    if ls.len() == 2 {
        assert(ls.drop_last() =~= seq![ls[0]]);
        assert(ls.drop_first() =~= seq![ls[1]]);
        assert(join(ls.drop_last(), sep) == ls[0]);
        assert(join(ls.drop_first(), sep) == ls[1]);
    } else {
        lemma_join_front(ls.drop_last(), sep);
        assert(ls.drop_last().drop_first() =~= ls.drop_first().drop_last());
        assert(ls.drop_first().last() == ls.last());
        assert(ls.drop_last()[0] == ls[0]);
        let rest = ls.drop_first();
        assert(join(rest, sep) == join(rest.drop_last(), sep) + sep + rest.last());
        assert(join(ls, sep) == join(ls.drop_last(), sep) + sep + ls.last());
        assert(join(ls, sep) =~= ls[0] + sep + join(rest, sep));
    }
}

/// Lines joined by newlines and ended by one read back as those lines
/// (each without a trailing carriage return).
pub proof fn lemma_lines_of_joined(ls: Seq<Seq<char>>)
    requires
        ls.len() > 0,
        forall|i: int| 0 <= i < ls.len() ==> one_line(#[trigger] ls[i]),
    ensures
        lines(join(ls, seq!['\n']).push('\n')) == ls.map_values(|l: Seq<char>| text::strip_cr(l)),
    decreases ls.len(),
{
    assert(one_line(ls[0]));
    if ls.len() == 1 {
        lemma_lines_step(Seq::empty(), ls[0], Seq::empty());
        assert(join(ls, seq!['\n']).push('\n') =~= ls[0] + seq!['\n'] + Seq::<char>::empty());
        assert(Seq::<char>::empty() + ls[0] =~= ls[0]);
        assert(ls.map_values(|l: Seq<char>| text::strip_cr(l)) =~= seq![text::strip_cr(ls[0])]);
    } else {
        lemma_join_front(ls, seq!['\n']);
        let rest = ls.drop_first();
        assert forall|i: int| 0 <= i < rest.len() implies one_line(#[trigger] rest[i]) by {
            assert(rest[i] == ls[i + 1]);
        }
        lemma_lines_of_joined(rest);
        let tail = join(rest, seq!['\n']).push('\n');
        assert(join(ls, seq!['\n']).push('\n') =~= ls[0] + seq!['\n'] + tail);
        lemma_lines_step(Seq::empty(), ls[0], tail);
        assert(Seq::<char>::empty() + ls[0] =~= ls[0]);
        assert(ls.map_values(|l: Seq<char>| text::strip_cr(l)) =~= seq![text::strip_cr(ls[0])]
            + rest.map_values(|l: Seq<char>| text::strip_cr(l)));
    }
}

/// The lines of any text hold no newline.
pub proof fn lemma_lines_one_line(cur: Seq<char>, s: Seq<char>)
    requires
        one_line(cur),
    ensures
        forall|i: int| 0 <= i < text::lines_from(cur, s).len() ==> one_line(#[trigger] text::lines_from(cur, s)[i]),
    decreases s.len(),
{
    if s.len() == 0 {
        if cur.len() > 0 {
            assert(text::lines_from(cur, s) =~= seq![cur]);
        } else {
            assert(text::lines_from(cur, s) =~= Seq::<Seq<char>>::empty());
        }
    } else if s[0] == '\n' {
        lemma_lines_one_line(Seq::empty(), s.drop_first());
        let rest = text::lines_from(Seq::empty(), s.drop_first());
        let all = seq![text::strip_cr(cur)] + rest;
        assert forall|i: int| 0 <= i < all.len() implies one_line(#[trigger] all[i]) by {
            if i > 0 {
                assert(all[i] == rest[i - 1]);
            } else {
                assert(one_line(text::strip_cr(cur)));
            }
        }
        assert(text::lines_from(cur, s) == all);
    } else {
        assert(one_line(cur.push(s[0])));
        lemma_lines_one_line(cur.push(s[0]), s.drop_first());
        assert(text::lines_from(cur, s) == text::lines_from(cur.push(s[0]), s.drop_first()));
    }
}

/// A carriage return at a line's end does not change which variable it sets.
pub proof fn lemma_key_line_strip_cr(l: Seq<char>, p: Seq<char>)
    requires
        forall|i: int| 0 <= i < p.len() ==> p[i] != '\r',
    ensures
        is_key_line(text::strip_cr(l), p) == is_key_line(l, p),
{
    if l.len() > 0 && l.last() == '\r' {
        let x = l.drop_last();
        assert(x + seq!['\r'] =~= l);
        if exists|i: int| 0 <= i < x.len() && !text::is_ws(x[i]) {
            text::lemma_trim_start_keeps_suffix(x, seq!['\r']);
            let t = text::trim_start(x);
            let tl = t + seq!['\r'];
            assert(text::strip_cr(l) == x);
            assert(text::trim_start(l) == tl);
            if p.len() <= t.len() {
                assert(tl.subrange(0, p.len() as int) =~= t.subrange(0, p.len() as int));
                assert(has_prefix(tl, p) == has_prefix(t, p));
            } else if p.len() == tl.len() {
                if has_prefix(tl, p) {
                    assert(tl.subrange(0, p.len() as int)[p.len() - 1] == '\r');
                    assert(p[p.len() - 1] == '\r');
                }
                assert(!has_prefix(t, p));
            } else {
                assert(!has_prefix(t, p));
                assert(!has_prefix(tl, p));
            }
        } else {
            assert(text::all_ws(x));
            assert(text::all_ws(l)) by {
                assert forall|i: int| 0 <= i < l.len() implies text::is_ws(#[trigger] l[i]) by {
                    if i < x.len() {
                        assert(l[i] == x[i]);
                    }
                }
            }
            text::lemma_trim_start_all_ws(x);
            text::lemma_trim_start_all_ws(l);
            assert(text::strip_cr(l) == x);
            assert(text::trim_start(x) =~= Seq::<char>::empty());
            assert(text::trim_start(l) =~= Seq::<char>::empty());
        }
    } else {
        assert(text::strip_cr(l) == l);
    }
}

proof fn lemma_least_key_line(ls: Seq<Seq<char>>, prefix: Seq<char>, w: int)
    requires
        0 <= w < ls.len(),
        is_key_line(ls[w], prefix),
    ensures
        exists|i: int|
            0 <= i < ls.len() && is_key_line(ls[i], prefix) && forall|j: int| 0 <= j < i ==> !is_key_line(ls[j], prefix),
    decreases w,
{
    if exists|j: int| 0 <= j < w && is_key_line(ls[j], prefix) {
        let j = choose|j: int| 0 <= j < w && is_key_line(ls[j], prefix);
        lemma_least_key_line(ls, prefix, j);
    } else {
        assert(forall|j: int| 0 <= j < w ==> !is_key_line(ls[j], prefix));
    }
}

/// The first assignment of a variable, when there is one, is the least
/// line that assigns it; otherwise no line does.
pub proof fn lemma_key_line_index_props(ls: Seq<Seq<char>>, prefix: Seq<char>)
    ensures
        match key_line_index(ls, prefix) {
            Some(i) => 0 <= i < ls.len() && is_key_line(ls[i], prefix) && forall|j: int|
                0 <= j < i ==> !is_key_line(ls[j], prefix),
            None => forall|j: int| 0 <= j < ls.len() ==> !is_key_line(ls[j], prefix),
        },
{
    if exists|i: int| 0 <= i < ls.len() && is_key_line(ls[i], prefix) {
        let w = choose|i: int| 0 <= i < ls.len() && is_key_line(ls[i], prefix);
        lemma_least_key_line(ls, prefix, w);
    }
}

/// Reading a variable back from the merged environment file gives the
/// value just set, whatever the file held before (for a name and a value
/// that fit on one line, a name that does not start with white space, and
/// a value that does not end in a carriage return).
pub proof fn law_env_merge_reads_back(existing: Seq<char>, k: Seq<char>, v: Seq<char>)
    requires
        one_line(k),
        one_line(v),
        forall|i: int| 0 <= i < k.len() ==> k[i] != '\r',
        k.len() > 0 ==> !text::is_ws(k[0]),
        v.len() > 0 ==> v.last() != '\r',
    ensures
        env_value_of(merged_env(existing, seq![(k, v)]), k) == Some(v),
{
    let ls = lines(existing);
    lemma_lines_one_line(Seq::empty(), existing);
    let p = k + seq!['='];
    let line = env_line(k, v);
    assert(seq![(k, v)].drop_first() =~= Seq::<(Seq<char>, Seq<char>)>::empty());
    let merged = merge_one(ls, k, v);
    let ups = seq![(k, v)];
    assert(ups[0] == (k, v));
    assert(merge_all(merged, Seq::<(Seq<char>, Seq<char>)>::empty()) == merged);
    assert(merge_all(ls, ups) == merge_all(merge_one(ls, k, v), ups.drop_first()));
    assert(merge_all(ls, ups) == merged);
    assert(one_line(line)) by {
        assert forall|i: int| 0 <= i < line.len() implies line[i] != '\n' by {
            if i < k.len() {
                assert(line[i] == k[i]);
            } else if i > k.len() {
                assert(line[i] == v[i - k.len() - 1]);
            }
        }
    }
    assert(forall|i: int| 0 <= i < p.len() ==> p[i] != '\r') by {
        assert forall|i: int| 0 <= i < p.len() implies p[i] != '\r' by {
            if i < k.len() {
                assert(p[i] == k[i]);
            }
        }
    }
    lemma_key_line_index_props(ls, p);
    let i: int = match key_line_index(ls, p) {
        Some(i) => i,
        None => ls.len() as int,
    };
    assert(merged.len() > 0);
    assert(0 <= i < merged.len() && merged[i] == line);
    assert forall|j: int| 0 <= j < merged.len() implies one_line(#[trigger] merged[j]) by {
        if j != i {
            assert(merged[j] == ls[j]);
        }
    }
    assert forall|j: int| 0 <= j < i implies merged[j] == ls[j] by {}
    lemma_lines_of_joined(merged);
    let ls2 = merged.map_values(|l: Seq<char>| text::strip_cr(l));
    assert(lines(merged_env(existing, seq![(k, v)])) == ls2);
    assert(text::strip_cr(line) == line) by {
        if v.len() > 0 {
            assert(line.last() == v.last());
        } else {
            assert(line.last() == '=');
        }
    }
    assert(ls2[i] == line);
    assert(text::trim_start(line) == line) by {
        assert(line[0] == (if k.len() > 0 { k[0] } else { '=' }));
    }
    assert(is_key_line(line, p)) by {
        assert(line.subrange(0, p.len() as int) =~= p);
    }
    assert forall|j: int| 0 <= j < i implies !is_key_line(#[trigger] ls2[j], p) by {
        lemma_key_line_strip_cr(ls[j], p);
    }
    lemma_key_line_index(ls2, p, i);
    assert(line.subrange(p.len() as int, line.len() as int) =~= v);
}
} // verus!
