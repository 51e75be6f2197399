//! Finding the DSH preset that the managed preset is copied from.
//!
//! The preset ships in the `@deepseek-ai/dsh-agent-presets` package, which
//! may sit in any `node_modules` directory around the DSH installation,
//! directly or under pnpm's `.pnpm` store; a user preset of that id is the
//! last resort.  The application lists and probes the directories; this
//! module says where to look and which candidate wins.
use vstd::prelude::*;

use crate::error::SearchError;
use crate::paths::{join_path, joined, AppPaths};
use crate::text::{self, contains};

verus! {

pub const PRESETS_IN_PACKAGE: &'static str = "@deepseek-ai/dsh-agent-presets/presets";

pub const PRESETS_IN_PNPM_ENTRY: &'static str = "node_modules/@deepseek-ai/dsh-agent-presets/presets";

pub const PACKAGE_NAME: &'static str = "dsh-agent-presets";

/// The preset `id` directly inside the package under `root`.
pub open spec fn direct_candidate_of(root: Seq<char>, id: Seq<char>) -> Seq<char> {
    joined(joined(root, PRESETS_IN_PACKAGE@), id)
}

/// The preset `id` inside a pnpm store entry at `entry`.
pub open spec fn pnpm_candidate_of(entry: Seq<char>, id: Seq<char>) -> Seq<char> {
    joined(joined(entry, PRESETS_IN_PNPM_ENTRY@), id)
}

/// Where the preset `id` would be directly under the `node_modules`
/// directory `root`.
pub fn direct_candidate(root: &str, id: &str) -> (res: String)
    ensures
        res@ == direct_candidate_of(root@, id@),
{
    let base = join_path(root, PRESETS_IN_PACKAGE);
    join_path(base.as_str(), id)
}

/// Where the preset `id` would be inside the pnpm store entry `entry`.
pub fn pnpm_candidate(entry: &str, id: &str) -> (res: String)
    ensures
        res@ == pnpm_candidate_of(entry@, id@),
{
    let base = join_path(entry, PRESETS_IN_PNPM_ENTRY);
    join_path(base.as_str(), id)
}

/// One entry of a `.pnpm` store, as the application found it.
pub struct PnpmEntry {
    /// The entry's file name.
    pub name: String,
    /// The entry's path.
    pub path: String,
    /// `pnpm_candidate(path, id)` is a directory.
    pub candidate_is_dir: bool,
}

/// What the application found under one `node_modules` directory.
pub struct RootProbe {
    /// The `node_modules` directory.
    pub root: String,
    /// `direct_candidate(root, id)` is a directory.
    pub direct_is_dir: bool,
    /// The entries of `root/.pnpm` in the order they were listed, each
    /// possibly an error; `None` when `.pnpm` is not a directory, an error
    /// when it cannot be listed.
    pub pnpm: Option<Result<Vec<Result<PnpmEntry, SearchError>>, SearchError>>,
}

/// The first pnpm entry from `j` on that names the package and holds the
/// preset; an unreadable entry met first is the outcome.
pub open spec fn pick_entry(entries: Seq<Result<PnpmEntry, SearchError>>, j: int, id: Seq<char>) -> Option<
    Result<Seq<char>, SearchError>,
>
    decreases entries.len() - j,
{
    if j < 0 || j >= entries.len() {
        None
    } else {
        match entries[j] {
            Err(e) => Some(Err(e)),
            Ok(en) => if contains(en.name@, PACKAGE_NAME@) && en.candidate_is_dir {
                Some(Ok(pnpm_candidate_of(en.path@, id)))
            } else {
                pick_entry(entries, j + 1, id)
            },
        }
    }
}

/// The outcome of searching the `node_modules` directories from `i` on, in
/// order: in each, the package's preset itself, else a pnpm store entry
/// holding it; `None` when none holds it.
pub open spec fn pick_root(roots: Seq<RootProbe>, i: int, id: Seq<char>) -> Option<Result<Seq<char>, SearchError>>
    decreases roots.len() - i,
{
    if i < 0 || i >= roots.len() {
        None
    } else if roots[i].direct_is_dir {
        Some(Ok(direct_candidate_of(roots[i].root@, id)))
    } else {
        match roots[i].pnpm {
            Some(Err(e)) => Some(Err(e)),
            Some(Ok(entries)) => match pick_entry(entries@, 0, id) {
                Some(r) => Some(r),
                None => pick_root(roots, i + 1, id),
            },
            None => pick_root(roots, i + 1, id),
        }
    }
}

/// The message when the preset is found nowhere.
pub open spec fn not_found_message(paths: AppPaths, profile: Seq<char>, id: Seq<char>) -> Seq<char> {
    "could not locate DSH preset "@ + id + "; expected @deepseek-ai/dsh-agent-presets under profile "@
        + paths.dsh_profile_dir_of(profile) + " or a user preset under "@ + paths.user_presets_dir_of()
}

/// The directory of the preset to copy: the first found under the
/// `node_modules` directories in order, else the user preset of that id
/// when it is a directory; `None` when it is found nowhere.
pub open spec fn source_preset_of(
    roots: Seq<RootProbe>,
    id: Seq<char>,
    user_is_dir: bool,
    paths: AppPaths,
) -> Option<Result<Seq<char>, SearchError>> {
    match pick_root(roots, 0, id) {
        Some(r) => Some(r),
        None => if user_is_dir {
            Some(Ok(joined(paths.user_presets_dir_of(), id)))
        } else {
            None
        },
    }
}

fn pick_in_entries(entries: Vec<Result<PnpmEntry, SearchError>>, id: &str) -> (res: Option<Result<String, SearchError>>)
    ensures
        match pick_entry(entries@, 0, id@) {
            None => res is None,
            Some(Ok(p)) => res matches Some(Ok(s)) && s@ == p,
            Some(Err(e)) => res == Some(Err::<String, SearchError>(e)),
        },
{
    let ghost all = entries@;
    let mut rest = entries;
    let ghost mut j: int = 0;
    while rest.len() > 0
        invariant
            0 <= j <= all.len(),
            rest@ == all.subrange(j, all.len() as int),
            pick_entry(entries@, 0, id@) == pick_entry(all, j, id@),
        decreases rest@.len(),
    {
        let entry = rest.remove(0);
        assert(entry == all[j]);
        match entry {
            Err(e) => {
                assert(pick_entry(all, j, id@) == Some(Err::<Seq<char>, SearchError>(e)));
                return Some(Err(e));
            },
            Ok(en) => {
                let name = text::chars_of(en.name.as_str());
                let package = text::chars_of(PACKAGE_NAME);
                let named = text::find_chars(&name, &package, 0).is_some();
                assert(named == contains(en.name@, PACKAGE_NAME@));
                if named && en.candidate_is_dir {
                    let c = pnpm_candidate(en.path.as_str(), id);
                    assert(pick_entry(all, j, id@) == Some(Ok::<Seq<char>, SearchError>(c@)));
                    return Some(Ok(c));
                }
                assert(pick_entry(all, j, id@) == pick_entry(all, j + 1, id@));
            },
        }
        proof {
            j = j + 1;
        }
    }
    None
}

/// Finds the directory of the preset `id` to copy from what the
/// application found: `roots` are the `node_modules` directories in the
/// order they are searched (`preset_roots`), `user_is_dir` tells whether
/// the user preset of that id is a directory.
pub fn pick_source_preset(
    roots: Vec<RootProbe>,
    id: &str,
    user_is_dir: bool,
    paths: &AppPaths,
    profile: &str,
) -> (res: Result<String, SearchError>)
    ensures
        match source_preset_of(roots@, id@, user_is_dir, *paths) {
            Some(Ok(p)) => res matches Ok(s) && s@ == p,
            Some(Err(e)) => res == Err::<String, SearchError>(e),
            None => res matches Err(SearchError::Install(m)) && m@ == not_found_message(*paths, profile@, id@),
        },
{
    let ghost all = roots@;
    let mut rest = roots;
    let ghost mut i: int = 0;
    while rest.len() > 0
        invariant
            0 <= i <= all.len(),
            rest@ == all.subrange(i, all.len() as int),
            pick_root(roots@, 0, id@) == pick_root(all, i, id@),
        decreases rest@.len(),
    {
        let probe = rest.remove(0);
        assert(probe == all[i]);
        let RootProbe { root, direct_is_dir, pnpm } = probe;
        if direct_is_dir {
            let c = direct_candidate(root.as_str(), id);
            assert(pick_root(all, i, id@) == Some(Ok::<Seq<char>, SearchError>(c@)));
            return Ok(c);
        }
        match pnpm {
            Some(Err(e)) => {
                assert(pick_root(all, i, id@) == Some(Err::<Seq<char>, SearchError>(e)));
                return Err(e);
            },
            Some(Ok(entries)) => match pick_in_entries(entries, id) {
                Some(Ok(p)) => return Ok(p),
                Some(Err(e)) => return Err(e),
                None => {},
            },
            None => {},
        }
        proof {
            i = i + 1;
        }
    }
    if user_is_dir {
        return Ok(paths.dsh_user_preset_dir(id));
    }
    let mut m = String::from_str("could not locate DSH preset ");
    m.append(id);
    m.append("; expected @deepseek-ai/dsh-agent-presets under profile ");
    let profile_dir = paths.dsh_profile_dir(profile);
    m.append(profile_dir.as_str());
    m.append(" or a user preset under ");
    let presets = paths.dsh_user_presets_dir();
    m.append(presets.as_str());
    Err(SearchError::Install(m))
}

// ---------------------------------------------------------------------------
// The directories searched, in path order
// ---------------------------------------------------------------------------

/// The component made of the characters `cur` read between two separators:
/// none for an empty run or `.`, the parent component for `..`, else a
/// normal component.  A component is its kind (0 root, 1 current
/// directory, 2 parent, 3 normal) with its text.
pub open spec fn flush(cur: Seq<char>) -> Seq<(u8, Seq<char>)> {
    if cur.len() == 0 || cur == seq!['.'] {
        Seq::empty()
    } else if cur == seq!['.', '.'] {
        seq![(2u8, cur)]
    } else {
        seq![(3u8, cur)]
    }
}

/// The components of `p` read on from a run `cur`, split at each `/`.
pub open spec fn scan(p: Seq<char>, cur: Seq<char>) -> Seq<(u8, Seq<char>)>
    decreases p.len(),
{
    if p.len() == 0 {
        flush(cur)
    } else if p[0] == '/' {
        flush(cur) + scan(p.drop_first(), Seq::empty())
    } else {
        scan(p.drop_first(), cur.push(p[0]))
    }
}

/// The leading component: the root of an absolute path, the current
/// directory of a path that starts with `./` or is `.`.
pub open spec fn lead(p: Seq<char>) -> Seq<(u8, Seq<char>)> {
    if p.len() > 0 && p[0] == '/' {
        seq![(0u8, Seq::<char>::empty())]
    } else if p == seq!['.'] || (p.len() >= 2 && p[0] == '.' && p[1] == '/') {
        seq![(1u8, Seq::<char>::empty())]
    } else {
        Seq::empty()
    }
}

/// The components of path `p`, as `Path::components` reads them on Unix.
pub open spec fn path_components(p: Seq<char>) -> Seq<(u8, Seq<char>)> {
    lead(p) + scan(p, Seq::empty())
}

/// `a` comes before `b` character by character.
pub open spec fn chars_lt(a: Seq<char>, b: Seq<char>) -> bool
    decreases a.len(),
{
    if a.len() == 0 {
        b.len() > 0
    } else if b.len() == 0 {
        false
    } else if a[0] != b[0] {
        a[0] < b[0]
    } else {
        chars_lt(a.drop_first(), b.drop_first())
    }
}

/// Component `a` comes before component `b`: by kind, then by text.
pub open spec fn comp_lt(a: (u8, Seq<char>), b: (u8, Seq<char>)) -> bool {
    a.0 < b.0 || (a.0 == b.0 && chars_lt(a.1, b.1))
}

/// Component list `a` comes before component list `b`.
pub open spec fn comps_lt(a: Seq<(u8, Seq<char>)>, b: Seq<(u8, Seq<char>)>) -> bool
    decreases a.len(),
{
    if a.len() == 0 {
        b.len() > 0
    } else if b.len() == 0 {
        false
    } else if a[0] != b[0] {
        comp_lt(a[0], b[0])
    } else {
        comps_lt(a.drop_first(), b.drop_first())
    }
}

proof fn lemma_chars_lt(a: Seq<char>, b: Seq<char>, c: Seq<char>)
    ensures
        !chars_lt(a, a),
        chars_lt(a, b) ==> !chars_lt(b, a),
        a != b ==> chars_lt(a, b) || chars_lt(b, a),
        chars_lt(a, b) && chars_lt(b, c) ==> chars_lt(a, c),
    decreases a.len(),
{
    if a.len() > 0 && b.len() > 0 {
        let c1 = if c.len() > 0 { c.drop_first() } else { b.drop_first() };
        lemma_chars_lt(a.drop_first(), b.drop_first(), c1);
    }
    if a.len() > 0 {
        lemma_chars_lt(a.drop_first(), a.drop_first(), a.drop_first());
    }
    if a.len() > 0 && b.len() > 0 && a[0] == b[0] && a.drop_first() == b.drop_first() {
        assert(a =~= seq![a[0]] + a.drop_first());
        assert(b =~= seq![b[0]] + b.drop_first());
    }
    if a.len() == 0 && b.len() == 0 {
        assert(a =~= b);
    }
}

proof fn lemma_comp_lt(a: (u8, Seq<char>), b: (u8, Seq<char>), c: (u8, Seq<char>))
    ensures
        !comp_lt(a, a),
        comp_lt(a, b) ==> !comp_lt(b, a),
        a != b ==> comp_lt(a, b) || comp_lt(b, a),
        comp_lt(a, b) && comp_lt(b, c) ==> comp_lt(a, c),
{
    lemma_chars_lt(a.1, b.1, c.1);
}

proof fn lemma_comps_lt(a: Seq<(u8, Seq<char>)>, b: Seq<(u8, Seq<char>)>, c: Seq<(u8, Seq<char>)>)
    ensures
        !comps_lt(a, a),
        comps_lt(a, b) ==> !comps_lt(b, a),
        a != b ==> comps_lt(a, b) || comps_lt(b, a),
        comps_lt(a, b) && comps_lt(b, c) ==> comps_lt(a, c),
    decreases a.len(),
{
    if a.len() > 0 && b.len() > 0 {
        let c1 = if c.len() > 0 { c.drop_first() } else { b.drop_first() };
        lemma_comps_lt(a.drop_first(), b.drop_first(), c1);
        if c.len() > 0 {
            lemma_comp_lt(a[0], b[0], c[0]);
        }
    }
    if a.len() > 0 {
        lemma_comps_lt(a.drop_first(), a.drop_first(), a.drop_first());
    }
    if a.len() > 0 && b.len() > 0 {
        lemma_comp_lt(a[0], b[0], b[0]);
        if a[0] == b[0] && a.drop_first() == b.drop_first() {
            assert(a =~= seq![a[0]] + a.drop_first());
            assert(b =~= seq![b[0]] + b.drop_first());
        }
    }
    if a.len() == 0 && b.len() == 0 {
        assert(a =~= b);
    }
}
/// The components held in a list, by their views.
pub open spec fn comp_views(v: Seq<(u8, Vec<char>)>) -> Seq<(u8, Seq<char>)> {
    v.map_values(|x: (u8, Vec<char>)| (x.0, x.1@))
}

proof fn lemma_comp_views_push(v: Seq<(u8, Vec<char>)>, x: (u8, Vec<char>))
    ensures
        comp_views(v.push(x)) == comp_views(v).push((x.0, x.1@)),
{
    assert(comp_views(v.push(x)) =~= comp_views(v).push((x.0, x.1@)));
}

fn flush_into(res: &mut Vec<(u8, Vec<char>)>, cur: Vec<char>)
    ensures
        comp_views(final(res)@) == comp_views(old(res)@) + flush(cur@),
{
    let n = cur.len();
    if n == 0 {
        assert(comp_views(res@) =~= comp_views(res@) + flush(cur@));
        return;
    }
    if n == 1 && cur[0] == '.' {
        assert(cur@ =~= seq!['.']);
        assert(comp_views(res@) =~= comp_views(res@) + flush(cur@));
        return;
    }
    let parent = n == 2 && cur[0] == '.' && cur[1] == '.';
    proof {
        if parent {
            assert(cur@ =~= seq!['.', '.']);
        }
        assert(cur@ != seq!['.']) by {
            if n == 1 {
                assert(cur@[0] != '.');
            }
        }
        if !parent {
            assert(cur@ != seq!['.', '.']) by {
                if n == 2 {
                    assert(cur@[0] != '.' || cur@[1] != '.');
                }
            }
        }
    }
    let kind: u8 = if parent { 2 } else { 3 };
    let ghost before = res@;
    let ghost cv = cur@;
    res.push((kind, cur));
    proof {
        lemma_comp_views_push(before, (kind, cur));
        assert(comp_views(res@) =~= comp_views(before) + flush(cv));
    }
}

/// The components of path `p`, as `Path::components` reads them on Unix.
pub fn components(p: &str) -> (res: Vec<(u8, Vec<char>)>)
    ensures
        comp_views(res@) == path_components(p@),
{
    let cs = text::chars_of(p);
    let n = cs.len();
    let mut res: Vec<(u8, Vec<char>)> = Vec::new();
    if n > 0 && cs[0] == '/' {
        res.push((0u8, Vec::new()));
    } else if (n == 1 && cs[0] == '.') || (n >= 2 && cs[0] == '.' && cs[1] == '/') {
        proof {
            if n == 1 {
                assert(cs@ =~= seq!['.']);
            }
        }
        res.push((1u8, Vec::new()));
    } else {
        proof {
            if n == 1 {
                assert(cs@ != seq!['.']) by {
                    assert(cs@[0] != '.');
                }
            }
        }
    }
    proof {
        assert(comp_views(res@) =~= lead(p@));
        assert(cs@.subrange(0, n as int) =~= cs@);
    }
    let mut cur: Vec<char> = Vec::new();
    let mut i: usize = 0;
    while i < n
        invariant
            n == cs@.len(),
            cs@ == p@,
            i <= n,
            comp_views(res@) + scan(cs@.subrange(i as int, n as int), cur@) == path_components(p@),
        decreases n - i,
    {
        let c = cs[i];
        let ghost rest = cs@.subrange(i as int, n as int);
        assert(rest.drop_first() =~= cs@.subrange(i as int + 1, n as int));
        if c == '/' {
            let ghost old_res = comp_views(res@);
            let ghost old_cur = cur@;
            let done = cur;
            flush_into(&mut res, done);
            cur = Vec::new();
            proof {
                assert(cur@ =~= Seq::<char>::empty());
                assert(comp_views(res@) + scan(cs@.subrange(i as int + 1, n as int), cur@) =~= old_res + (flush(
                    old_cur,
                ) + scan(rest.drop_first(), Seq::empty())));
            }
        } else {
            cur.push(c);
        }
        i = i + 1;
    }
    proof {
        assert(cs@.subrange(n as int, n as int) =~= Seq::<char>::empty());
    }
    flush_into(&mut res, cur);
    res
}

/// Compares two texts character by character: negative, zero or positive
/// as `a` comes before, equals or comes after `b`.
fn chars_order(a: &Vec<char>, b: &Vec<char>) -> (r: i8)
    ensures
        (r < 0) == chars_lt(a@, b@),
        (r > 0) == chars_lt(b@, a@),
        (r == 0) == (a@ == b@),
{
    let la = a.len();
    let lb = b.len();
    let mut i: usize = 0;
    proof {
        lemma_chars_lt(a@, b@, a@);
        lemma_chars_lt(b@, a@, b@);
        assert(a@.subrange(0, la as int) =~= a@);
        assert(b@.subrange(0, lb as int) =~= b@);
    }
    while i < la && i < lb && a[i] == b[i]
        invariant
            la == a@.len(),
            lb == b@.len(),
            i <= la,
            i <= lb,
            a@.subrange(0, i as int) == b@.subrange(0, i as int),
            chars_lt(a@, b@) == chars_lt(a@.subrange(i as int, la as int), b@.subrange(i as int, lb as int)),
            chars_lt(b@, a@) == chars_lt(b@.subrange(i as int, lb as int), a@.subrange(i as int, la as int)),
        decreases la - i,
    {
        proof {
            let x = a@.subrange(i as int, la as int);
            let y = b@.subrange(i as int, lb as int);
            assert(x.drop_first() =~= a@.subrange(i as int + 1, la as int));
            assert(y.drop_first() =~= b@.subrange(i as int + 1, lb as int));
            assert(a@.subrange(0, i as int + 1) =~= a@.subrange(0, i as int).push(a@[i as int]));
            assert(b@.subrange(0, i as int + 1) =~= b@.subrange(0, i as int).push(b@[i as int]));
        }
        i = i + 1;
    }
    proof {
        lemma_chars_lt(a@, b@, a@);
    }
    if i == la && i == lb {
        assert(a@ =~= a@.subrange(0, i as int));
        assert(b@ =~= b@.subrange(0, i as int));
        0
    } else if i == la {
        -1
    } else if i == lb {
        1
    } else if a[i] < b[i] {
        -1
    } else {
        1
    }
}

/// Compares two component lists component by component.
fn comps_order(a: &Vec<(u8, Vec<char>)>, b: &Vec<(u8, Vec<char>)>) -> (r: i8)
    ensures
        (r < 0) == comps_lt(comp_views(a@), comp_views(b@)),
        (r > 0) == comps_lt(comp_views(b@), comp_views(a@)),
        (r == 0) == (comp_views(a@) == comp_views(b@)),
{
    let ghost va = comp_views(a@);
    let ghost vb = comp_views(b@);
    let la = a.len();
    let lb = b.len();
    let mut i: usize = 0;
    proof {
        lemma_comps_lt(va, vb, va);
        lemma_comps_lt(vb, va, vb);
        assert(va.subrange(0, la as int) =~= va);
        assert(vb.subrange(0, lb as int) =~= vb);
    }
    loop
        invariant
            la == a@.len(),
            lb == b@.len(),
            va == comp_views(a@),
            vb == comp_views(b@),
            i <= la,
            i <= lb,
            va.subrange(0, i as int) == vb.subrange(0, i as int),
            comps_lt(va, vb) == comps_lt(va.subrange(i as int, la as int), vb.subrange(i as int, lb as int)),
            comps_lt(vb, va) == comps_lt(vb.subrange(i as int, lb as int), va.subrange(i as int, la as int)),
        decreases la - i,
    {
        if i == la || i == lb {
            proof {
                lemma_comps_lt(va, vb, va);
            }
            if i == la && i == lb {
                assert(va =~= va.subrange(0, i as int));
                assert(vb =~= vb.subrange(0, i as int));
                return 0;
            } else if i == la {
                return -1;
            } else {
                return 1;
            }
        }
        let x = &a[i];
        let y = &b[i];
        assert(va[i as int] == (x.0, x.1@));
        assert(vb[i as int] == (y.0, y.1@));
        proof {
            lemma_comps_lt(va, vb, va);
            lemma_comp_lt(va[i as int], vb[i as int], va[i as int]);
        }
        if x.0 != y.0 {
            return if x.0 < y.0 { -1 } else { 1 };
        }
        let c = chars_order(&x.1, &y.1);
        if c != 0 {
            return c;
        }
        proof {
            let xs = va.subrange(i as int, la as int);
            let ys = vb.subrange(i as int, lb as int);
            assert(xs.drop_first() =~= va.subrange(i as int + 1, la as int));
            assert(ys.drop_first() =~= vb.subrange(i as int + 1, lb as int));
            assert(va.subrange(0, i as int + 1) =~= va.subrange(0, i as int).push(va[i as int]));
            assert(vb.subrange(0, i as int + 1) =~= vb.subrange(0, i as int).push(vb[i as int]));
        }
        i = i + 1;
    }
}
/// The components of a path held in a string.
pub open spec fn key_of(p: String) -> Seq<(u8, Seq<char>)> {
    path_components(p@)
}

/// The `node_modules` directories met going up from the DSH command: each
/// ancestor named `node_modules`, and each ancestor's `node_modules` child
/// that is a directory.  An ancestor is given as its path, whether its
/// name is `node_modules`, and whether it has a `node_modules` directory.
pub open spec fn ancestor_roots(ancestors: Seq<(String, bool, bool)>) -> Seq<Seq<char>>
    decreases ancestors.len(),
{
    if ancestors.len() == 0 {
        Seq::empty()
    } else {
        let a = ancestors.last();
        ancestor_roots(ancestors.drop_last()) + (if a.1 {
            seq![a.0@]
        } else {
            Seq::empty()
        }) + (if a.2 {
            seq![joined(a.0@, "node_modules"@)]
        } else {
            Seq::empty()
        })
    }
}

/// Every directory to search before sorting: the profile's `node_modules`
/// first, then those met going up from the DSH command.
pub open spec fn root_candidates(profile_node_modules: Seq<char>, ancestors: Seq<(String, bool, bool)>) -> Seq<
    Seq<char>,
> {
    seq![profile_node_modules] + ancestor_roots(ancestors)
}

/// The paths of `res` come strictly in path order.
#[verifier::opaque]
pub open spec fn strictly_sorted(res: Seq<Seq<char>>) -> bool {
    forall|i: int, j: int|
        0 <= i < j < res.len() ==> comps_lt(path_components(#[trigger] res[i]), path_components(#[trigger] res[j]))
}

/// Candidate `x` has a path equal to it in `res`.
pub open spec fn covered(res: Seq<Seq<char>>, cands: Seq<Seq<char>>, x: int) -> bool {
    exists|i: int| #![trigger res[i]] 0 <= i < res.len() && path_components(res[i]) == path_components(cands[x])
}

/// Each candidate has a path equal to it in `res`.
#[verifier::opaque]
pub open spec fn covers(res: Seq<Seq<char>>, cands: Seq<Seq<char>>) -> bool {
    forall|x: int| 0 <= x < cands.len() ==> #[trigger] covered(res, cands, x)
}

/// No candidate before `x` is a path equal to candidate `x`.
pub open spec fn first_of_kind(cands: Seq<Seq<char>>, x: int) -> bool {
    forall|y: int| 0 <= y < x ==> path_components(#[trigger] cands[y]) != path_components(cands[x])
}

/// Path `i` of `res` is a candidate that comes first of its kind.
pub open spec fn kept_first(res: Seq<Seq<char>>, cands: Seq<Seq<char>>, i: int) -> bool {
    exists|x: int| #![trigger cands[x]] 0 <= x < cands.len() && res[i] == cands[x] && first_of_kind(cands, x)
}

/// Each path of `res` is the first candidate of its kind.
#[verifier::opaque]
pub open spec fn firsts_of(res: Seq<Seq<char>>, cands: Seq<Seq<char>>) -> bool {
    forall|i: int| 0 <= i < res.len() ==> #[trigger] kept_first(res, cands, i)
}

/// `res` is `cands` sorted by path order with equal paths dropped, the
/// first of each kept: strictly increasing, holding a path equal to each
/// candidate, and each of its paths the first candidate of its kind.
pub open spec fn sorted_unique_of(res: Seq<Seq<char>>, cands: Seq<Seq<char>>) -> bool {
    &&& strictly_sorted(res)
    &&& covers(res, cands)
    &&& firsts_of(res, cands)
}

fn candidates(profile_node_modules: &str, ancestors: &Vec<(String, bool, bool)>) -> (res: Vec<String>)
    ensures
        text::string_views(res@) == root_candidates(profile_node_modules@, ancestors@),
{
    let mut res: Vec<String> = Vec::new();
    res.push(String::from_str(profile_node_modules));
    let mut i: usize = 0;
    proof {
        assert(ancestors@.subrange(0, 0) =~= Seq::<(String, bool, bool)>::empty());
        assert(text::string_views(res@) =~= seq![profile_node_modules@] + ancestor_roots(ancestors@.subrange(0, 0)));
    }
    while i < ancestors.len()
        invariant
            i <= ancestors@.len(),
            text::string_views(res@) == seq![profile_node_modules@] + ancestor_roots(ancestors@.subrange(0, i as int)),
        decreases ancestors@.len() - i,
    {
        let a = &ancestors[i];
        let ghost before = text::string_views(res@);
        let ghost pre = ancestors@.subrange(0, i as int + 1);
        assert(pre.drop_last() =~= ancestors@.subrange(0, i as int));
        assert(pre.last() == ancestors@[i as int]);
        if a.1 {
            res.push(a.0.clone());
        }
        let ghost mid = text::string_views(res@);
        if a.2 {
            res.push(join_path(a.0.as_str(), "node_modules"));
        }
        proof {
            assert(mid =~= before + (if a.1 { seq![a.0@] } else { Seq::empty() }));
            assert(text::string_views(res@) =~= mid + (if a.2 {
                seq![joined(a.0@, "node_modules"@)]
            } else {
                Seq::empty()
            }));
            assert(text::string_views(res@) =~= seq![profile_node_modules@] + ancestor_roots(pre));
        }
        i = i + 1;
    }
    assert(ancestors@.subrange(0, ancestors@.len() as int) =~= ancestors@);
    res
}

/// The `node_modules` directories to search for the preset package, in
/// path order with duplicates dropped (as `sort` and `dedup` leave a list
/// of paths): the profile's own, and those met going up from the DSH
/// command.
pub fn preset_roots(profile_node_modules: &str, ancestors: &Vec<(String, bool, bool)>) -> (res: Vec<String>)
    ensures
        sorted_unique_of(text::string_views(res@), root_candidates(profile_node_modules@, ancestors@)),
{
    let cands = candidates(profile_node_modules, ancestors);
    let ghost cv = text::string_views(cands@);
    let mut res: Vec<String> = Vec::new();
    let mut keys: Vec<Vec<(u8, Vec<char>)>> = Vec::new();
    let mut n: usize = 0;
    proof {
        reveal(strictly_sorted);
        reveal(covers);
        reveal(firsts_of);
        assert(text::string_views(res@) =~= Seq::<Seq<char>>::empty());
        assert(cv.subrange(0, 0) =~= Seq::<Seq<char>>::empty());
        assert(sorted_unique_of(text::string_views(res@), cv.subrange(0, 0)));
    }
    while n < cands.len()
        invariant
            n <= cands@.len(),
            cv == text::string_views(cands@),
            keys@.len() == res@.len(),
            forall|i: int| 0 <= i < keys@.len() ==> comp_views(#[trigger] keys@[i]@) == path_components(res@[i]@),
            sorted_unique_of(text::string_views(res@), cv.subrange(0, n as int)),
        decreases cands@.len() - n,
    {
        let y = &cands[n];
        let ky = components(y.as_str());
        let ghost rv = text::string_views(res@);
        let ghost kyv = comp_views(ky@);
        let ghost pre = cv.subrange(0, n as int);
        let ghost pre1 = cv.subrange(0, n as int + 1);
        assert(pre1 =~= pre.push(y@));
        let mut k: usize = 0;
        let mut order: i8 = -1;
        while k < res.len()
            invariant
                k <= res@.len(),
                keys@.len() == res@.len(),
                rv == text::string_views(res@),
                kyv == comp_views(ky@),
                forall|i: int| 0 <= i < keys@.len() ==> comp_views(#[trigger] keys@[i]@) == path_components(res@[i]@),
                forall|i: int| 0 <= i < k ==> comps_lt(path_components(#[trigger] rv[i]), kyv),
            ensures
                k <= res@.len(),
                forall|i: int| 0 <= i < k ==> comps_lt(path_components(#[trigger] rv[i]), kyv),
                k < res@.len() ==> order >= 0 && (order == 0) == (path_components(rv[k as int]) == kyv) && (order > 0)
                    == comps_lt(kyv, path_components(rv[k as int])),
            decreases res@.len() - k,
        {
            order = comps_order(&keys[k], &ky);
            assert(comp_views(keys@[k as int]@) == path_components(rv[k as int]));
            if order >= 0 {
                break;
            }
            k = k + 1;
        }
        if k < res.len() && order == 0 {
            proof {
                lemma_keep_first(rv, pre, y@, k as int);
            }
        } else {
            proof {
                lemma_insert_sorted(rv, pre, y@, k as int);
            }
            let ghost old_keys = keys@;
            let ghost old_res = res@;
            let yc = y.clone();
            res.insert(k, yc);
            keys.insert(k, ky);
            proof {
                assert(text::string_views(res@) =~= rv.insert(k as int, y@));
                assert forall|i: int| 0 <= i < keys@.len() implies comp_views(#[trigger] keys@[i]@) == path_components(
                    res@[i]@,
                ) by {
                    if i < k {
                        assert(keys@[i] == old_keys[i] && res@[i] == old_res[i]);
                    } else if i > k {
                        assert(keys@[i] == old_keys[i - 1] && res@[i] == old_res[i - 1]);
                    } else {
                        assert(res@[i]@ == y@);
                    }
                }
            }
        }
        n = n + 1;
    }
    assert(cv.subrange(0, cands@.len() as int) =~= cv);
    res
}

/// Appending a candidate keeps which earlier candidates come first of
/// their kind.
proof fn lemma_first_of_kind_push(pre: Seq<Seq<char>>, y: Seq<char>, x: int)
    requires
        0 <= x < pre.len(),
        first_of_kind(pre, x),
    ensures
        first_of_kind(pre.push(y), x),
{
    let p2 = pre.push(y);
    assert forall|z: int| 0 <= z < x implies path_components(#[trigger] p2[z]) != path_components(p2[x]) by {
        assert(p2[z] == pre[z]);
        assert(p2[x] == pre[x]);
    }
}

/// Appending a candidate keeps every kept path a first candidate.
proof fn lemma_firsts_push(rv: Seq<Seq<char>>, pre: Seq<Seq<char>>, y: Seq<char>)
    requires
        firsts_of(rv, pre),
    ensures
        firsts_of(rv, pre.push(y)),
{
    reveal(firsts_of);
    let p2 = pre.push(y);
    assert forall|i: int| 0 <= i < rv.len() implies #[trigger] kept_first(rv, p2, i) by {
        assert(kept_first(rv, pre, i));
        let x = choose|x: int| #![trigger pre[x]] 0 <= x < pre.len() && rv[i] == pre[x] && first_of_kind(pre, x);
        lemma_first_of_kind_push(pre, y, x);
        assert(rv[i] == p2[x]);
    }
}

/// A path equal to one already kept is dropped: the list stays as it is.
proof fn lemma_keep_first(rv: Seq<Seq<char>>, pre: Seq<Seq<char>>, y: Seq<char>, k: int)
    requires
        sorted_unique_of(rv, pre),
        0 <= k < rv.len(),
        path_components(rv[k]) == path_components(y),
    ensures
        sorted_unique_of(rv, pre.push(y)),
{
    let p2 = pre.push(y);
    lemma_firsts_push(rv, pre, y);
    reveal(covers);
    assert forall|x: int| 0 <= x < p2.len() implies #[trigger] covered(rv, p2, x) by {
        if x < pre.len() {
            assert(p2[x] == pre[x]);
            assert(covered(rv, pre, x));
            let i = choose|i: int| #![trigger rv[i]] 0 <= i < rv.len() && path_components(rv[i]) == path_components(pre[x]);
            assert(path_components(rv[i]) == path_components(p2[x]));
        } else {
            assert(p2[x] == y);
            assert(path_components(rv[k]) == path_components(p2[x]));
        }
    }
}

/// A path placed where the order puts it differs from every path kept.
proof fn lemma_new_path_differs(rv: Seq<Seq<char>>, y: Seq<char>, k: int)
    requires
        strictly_sorted(rv),
        0 <= k <= rv.len(),
        forall|i: int| 0 <= i < k ==> comps_lt(path_components(#[trigger] rv[i]), path_components(y)),
        k < rv.len() ==> comps_lt(path_components(y), path_components(rv[k])),
    ensures
        forall|i: int| 0 <= i < rv.len() ==> path_components(#[trigger] rv[i]) != path_components(y),
{
    reveal(strictly_sorted);
    let ky = path_components(y);
    assert forall|i: int| 0 <= i < rv.len() implies path_components(#[trigger] rv[i]) != ky by {
        lemma_comps_lt(path_components(rv[i]), ky, path_components(rv[i]));
        if i >= k {
            if i > k {
                lemma_comps_lt(ky, path_components(rv[k]), path_components(rv[i]));
            }
            lemma_comps_lt(ky, path_components(rv[i]), ky);
        }
    }
}

/// Inserting a path where the order puts it keeps the list strictly sorted.
proof fn lemma_insert_keeps_sorted(rv: Seq<Seq<char>>, y: Seq<char>, k: int)
    requires
        strictly_sorted(rv),
        0 <= k <= rv.len(),
        forall|i: int| 0 <= i < k ==> comps_lt(path_components(#[trigger] rv[i]), path_components(y)),
        k < rv.len() ==> comps_lt(path_components(y), path_components(rv[k])),
    ensures
        strictly_sorted(rv.insert(k, y)),
{
    reveal(strictly_sorted);
    let ky = path_components(y);
    let r2 = rv.insert(k, y);
    assert forall|i: int, j: int| 0 <= i < j < r2.len() implies comps_lt(
        path_components(#[trigger] r2[i]),
        path_components(#[trigger] r2[j]),
    ) by {
        if j < k {
            assert(r2[i] == rv[i] && r2[j] == rv[j]);
        } else if j == k {
            assert(r2[i] == rv[i] && r2[j] == y);
        } else if i < k {
            assert(r2[i] == rv[i] && r2[j] == rv[j - 1]);
            lemma_comps_lt(path_components(rv[i]), ky, path_components(rv[k]));
            if j - 1 > k {
                lemma_comps_lt(path_components(rv[i]), path_components(rv[k]), path_components(rv[j - 1]));
            }
        } else if i == k {
            assert(r2[i] == y && r2[j] == rv[j - 1]);
            if j - 1 > k {
                lemma_comps_lt(ky, path_components(rv[k]), path_components(rv[j - 1]));
            }
        } else {
            assert(r2[i] == rv[i - 1] && r2[j] == rv[j - 1]);
        }
    }
}

/// Inserting a path keeps every candidate covered.
proof fn lemma_covers_insert(rv: Seq<Seq<char>>, pre: Seq<Seq<char>>, y: Seq<char>, k: int)
    requires
        covers(rv, pre),
        0 <= k <= rv.len(),
    ensures
        covers(rv.insert(k, y), pre.push(y)),
{
    reveal(covers);
    let r2 = rv.insert(k, y);
    let p2 = pre.push(y);
    assert forall|x: int| 0 <= x < p2.len() implies #[trigger] covered(r2, p2, x) by {
        if x < pre.len() {
            assert(p2[x] == pre[x]);
            assert(covered(rv, pre, x));
            let i = choose|i: int| #![trigger rv[i]] 0 <= i < rv.len() && path_components(rv[i]) == path_components(pre[x]);
            if i < k {
                assert(r2[i] == rv[i]);
                assert(path_components(r2[i]) == path_components(p2[x]));
            } else {
                assert(r2[i + 1] == rv[i]);
                assert(path_components(r2[i + 1]) == path_components(p2[x]));
            }
        } else {
            assert(p2[x] == y && r2[k] == y);
            assert(path_components(r2[k]) == path_components(p2[x]));
        }
    }
}

/// Inserting a path that differs from every kept one, and so from every
/// earlier candidate, keeps every kept path a first candidate.
proof fn lemma_firsts_insert(rv: Seq<Seq<char>>, pre: Seq<Seq<char>>, y: Seq<char>, k: int)
    requires
        firsts_of(rv, pre),
        covers(rv, pre),
        0 <= k <= rv.len(),
        forall|i: int| 0 <= i < rv.len() ==> path_components(#[trigger] rv[i]) != path_components(y),
    ensures
        firsts_of(rv.insert(k, y), pre.push(y)),
{
    let r2 = rv.insert(k, y);
    let p2 = pre.push(y);
    let n = pre.len() as int;
    assert(first_of_kind(p2, n)) by {
        reveal(covers);
        assert forall|z: int| 0 <= z < n implies path_components(#[trigger] p2[z]) != path_components(p2[n]) by {
            assert(p2[z] == pre[z]);
            assert(p2[n] == y);
            assert(covered(rv, pre, z));
            let w = choose|w: int| #![trigger rv[w]] 0 <= w < rv.len() && path_components(rv[w]) == path_components(pre[z]);
            assert(path_components(rv[w]) != path_components(y));
        }
    }
    reveal(firsts_of);
    assert forall|i: int| 0 <= i < r2.len() implies #[trigger] kept_first(r2, p2, i) by {
        if i == k {
            assert(r2[i] == p2[n]);
        } else {
            let ii = if i < k { i } else { i - 1 };
            assert(r2[i] == rv[ii]);
            assert(kept_first(rv, pre, ii));
            let x = choose|x: int| #![trigger pre[x]] 0 <= x < pre.len() && rv[ii] == pre[x] && first_of_kind(pre, x);
            lemma_first_of_kind_push(pre, y, x);
            assert(r2[i] == p2[x]);
        }
    }
}

/// Putting a path that is not yet there at the place the order gives it
/// keeps the list sorted, unique and made of first candidates.
proof fn lemma_insert_sorted(rv: Seq<Seq<char>>, pre: Seq<Seq<char>>, y: Seq<char>, k: int)
    requires
        sorted_unique_of(rv, pre),
        0 <= k <= rv.len(),
        forall|i: int| 0 <= i < k ==> comps_lt(path_components(#[trigger] rv[i]), path_components(y)),
        k < rv.len() ==> comps_lt(path_components(y), path_components(rv[k])),
    ensures
        sorted_unique_of(rv.insert(k, y), pre.push(y)),
{
    lemma_new_path_differs(rv, y, k);
    lemma_insert_keeps_sorted(rv, y, k);
    lemma_covers_insert(rv, pre, y, k);
    lemma_firsts_insert(rv, pre, y, k);
}
} // verus!
