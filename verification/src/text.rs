//! Character-level text helpers shared by the prompt, patch and event code.
//!
//! Strings are reasoned about through their `Seq<char>` views.  The trimming
//! functions follow `str::trim`, which strips characters with the Unicode
//! `White_Space` property from both ends.
use vstd::prelude::*;
use vstd::std_specs::iter::IteratorSpec;

verus! {

broadcast use vstd::string::group_string_axioms;

/// The Unicode `White_Space` property, as used by `char::is_whitespace`.
pub open spec fn is_ws(c: char) -> bool {
    ||| c == ' '
    ||| ('\u{9}' <= c && c <= '\u{d}')
    ||| c == '\u{85}'
    ||| c == '\u{a0}'
    ||| c == '\u{1680}'
    ||| ('\u{2000}' <= c && c <= '\u{200a}')
    ||| c == '\u{2028}'
    ||| c == '\u{2029}'
    ||| c == '\u{202f}'
    ||| c == '\u{205f}'
    ||| c == '\u{3000}'
}

/// `s` with leading white space removed.
pub open spec fn trim_start(s: Seq<char>) -> Seq<char>
    decreases s.len(),
{
    if s.len() > 0 && is_ws(s[0]) {
        trim_start(s.drop_first())
    } else {
        s
    }
}

/// `s` with trailing white space removed.
pub open spec fn trim_end(s: Seq<char>) -> Seq<char>
    decreases s.len(),
{
    if s.len() > 0 && is_ws(s.last()) {
        trim_end(s.drop_last())
    } else {
        s
    }
}

/// `s` with white space removed from both ends, as `str::trim` does.
pub open spec fn trim(s: Seq<char>) -> Seq<char> {
    trim_end(trim_start(s))
}

/// True when `s` is empty or consists of white space only.
pub open spec fn is_blank(s: Seq<char>) -> bool {
    trim(s).len() == 0
}

/// `needle` occurs in `hay` starting at character index `i`.
pub open spec fn occurs_at(hay: Seq<char>, needle: Seq<char>, i: int) -> bool {
    0 <= i && i + needle.len() <= hay.len() && hay.subrange(i, i + needle.len()) == needle
}

/// The decimal digit for `d < 10`.
pub open spec fn digit_char(d: nat) -> char {
    if d == 0 { '0' }
    else if d == 1 { '1' }
    else if d == 2 { '2' }
    else if d == 3 { '3' }
    else if d == 4 { '4' }
    else if d == 5 { '5' }
    else if d == 6 { '6' }
    else if d == 7 { '7' }
    else if d == 8 { '8' }
    else { '9' }
}

/// Decimal representation of `n` without leading zeros, as `Display` writes it.
pub open spec fn decimal(n: nat) -> Seq<char>
    decreases n,
{
    if n < 10 {
        seq![digit_char(n)]
    } else {
        decimal(n / 10).push(digit_char(n % 10))
    }
}

pub fn is_whitespace(c: char) -> (res: bool)
    ensures
        res == is_ws(c),
{
    c == ' ' || ('\u{9}' <= c && c <= '\u{d}') || c == '\u{85}' || c == '\u{a0}' || c
        == '\u{1680}' || ('\u{2000}' <= c && c <= '\u{200a}') || c == '\u{2028}' || c
        == '\u{2029}' || c == '\u{202f}' || c == '\u{205f}' || c == '\u{3000}'
}

/// The characters of `s`, in order.
pub fn chars_of(s: &str) -> (res: Vec<char>)
    ensures
        res@ == s@,
{
    let mut res: Vec<char> = Vec::new();
    let mut it = s.chars();
    loop
        invariant
            it.obeys_prophetic_iter_laws(),
            it.decrease() is Some,
            res@ + it.remaining() == s@,
        ensures
            res@ == s@,
        decreases it.decrease()->0,
    {
        match it.next() {
            Some(c) => {
                res.push(c);
                assert(res@ + it.remaining() =~= s@);
            },
            None => {
                assert(res@ =~= s@);
                break;
            },
        }
    }
    res
}

proof fn lemma_trim_start_skip(s: Seq<char>, i: int)
    requires
        0 <= i < s.len(),
        is_ws(s[i]),
    ensures
        trim_start(s.subrange(i, s.len() as int)) == trim_start(s.subrange(i + 1, s.len() as int)),
{
    assert(s.subrange(i, s.len() as int).drop_first() =~= s.subrange(i + 1, s.len() as int));
}

proof fn lemma_trim_end_skip(s: Seq<char>, j: int)
    requires
        0 < j <= s.len(),
        is_ws(s[j - 1]),
    ensures
        trim_end(s.subrange(0, j)) == trim_end(s.subrange(0, j - 1)),
{
    assert(s.subrange(0, j).drop_last() =~= s.subrange(0, j - 1));
}

/// Index `k` such that `trim_start(s) == s[k..]`.
pub fn trim_start_bound(cs: &Vec<char>) -> (k: usize)
    ensures
        k <= cs@.len(),
        trim_start(cs@) == cs@.subrange(k as int, cs@.len() as int),
{
    let n = cs.len();
    let mut i: usize = 0;
    assert(cs@.subrange(0, n as int) =~= cs@);
    while i < n && is_whitespace(cs[i])
        invariant
            i <= n == cs@.len(),
            trim_start(cs@) == trim_start(cs@.subrange(i as int, n as int)),
        decreases n - i,
    {
        proof {
            lemma_trim_start_skip(cs@, i as int);
        }
        i = i + 1;
    }
    i
}

/// Bounds `(a, b)` such that `trim(s) == s[a..b]`.
pub fn trim_bounds(cs: &Vec<char>) -> (res: (usize, usize))
    ensures
        res.0 <= res.1 <= cs@.len(),
        trim(cs@) == cs@.subrange(res.0 as int, res.1 as int),
{
    let n = cs.len();
    let i = trim_start_bound(cs);
    let ghost t = cs@.subrange(i as int, n as int);
    assert(trim_start(cs@) == t);
    let mut j: usize = n;
    assert(cs@.subrange(i as int, n as int) =~= t.subrange(0, (n - i) as int));
    while j > i && is_whitespace(cs[j - 1])
        invariant
            i <= j <= n == cs@.len(),
            t == cs@.subrange(i as int, n as int),
            trim_end(t) == trim_end(cs@.subrange(i as int, j as int)),
        decreases j,
    {
        proof {
            assert(cs@.subrange(i as int, j as int) =~= t.subrange(0, (j - i) as int));
            lemma_trim_end_skip(t, (j - i) as int);
            assert(cs@.subrange(i as int, (j - 1) as int) =~= t.subrange(0, (j - 1 - i) as int));
        }
        j = j - 1;
    }
    (i, j)
}

/// `s` with leading and trailing white space removed.
pub fn trim_str(s: &str) -> (res: String)
    ensures
        res@ == trim(s@),
{
    let cs = chars_of(s);
    let (a, b) = trim_bounds(&cs);
    String::from_str(s.substring_char(a, b))
}

/// True when `s` is empty or white space only.
pub fn blank(s: &str) -> (res: bool)
    ensures
        res == is_blank(s@),
{
    let cs = chars_of(s);
    let (a, b) = trim_bounds(&cs);
    a == b
}

/// The parts joined with `sep` between neighbours, as `[T]::join` does.
pub open spec fn join(parts: Seq<Seq<char>>, sep: Seq<char>) -> Seq<char>
    decreases parts.len(),
{
    if parts.len() == 0 {
        Seq::empty()
    } else if parts.len() == 1 {
        parts[0]
    } else {
        join(parts.drop_last(), sep) + sep + parts.last()
    }
}

/// `s` starts with `p`.
pub open spec fn has_prefix(s: Seq<char>, p: Seq<char>) -> bool {
    p.len() <= s.len() && s.subrange(0, p.len() as int) == p
}

/// The character views of a list of character vectors.
pub open spec fn views(vs: Seq<Vec<char>>) -> Seq<Seq<char>> {
    vs.map_values(|v: Vec<char>| v@)
}

/// The views of a list of strings.
pub open spec fn string_views(vs: Seq<String>) -> Seq<Seq<char>> {
    vs.map_values(|v: String| v@)
}

/// Appends one character (`String::push`).
#[verifier::external_body]
pub(crate) fn push_char(s: &mut String, c: char)
    ensures
        final(s)@ == old(s)@.push(c),
{
    s.push(c);
}

/// The string made of `cs[a..b]`.
pub fn string_from_range(cs: &Vec<char>, a: usize, b: usize) -> (res: String)
    requires
        a <= b <= cs@.len(),
    ensures
        res@ == cs@.subrange(a as int, b as int),
{
    let mut res = String::new();
    let mut i = a;
    while i < b
        invariant
            a <= i <= b <= cs@.len(),
            res@ == cs@.subrange(a as int, i as int),
        decreases b - i,
    {
        push_char(&mut res, cs[i]);
        assert(cs@.subrange(a as int, i + 1) =~= cs@.subrange(a as int, i as int).push(cs@[i as int]));
        i = i + 1;
    }
    res
}

/// The string made of all of `cs`.
pub fn string_from_chars(cs: &Vec<char>) -> (res: String)
    ensures
        res@ == cs@,
{
    let r = string_from_range(cs, 0, cs.len());
    assert(cs@.subrange(0, cs@.len() as int) =~= cs@);
    r
}

/// The characters `cs[a..b]`.
pub fn chars_range(cs: &Vec<char>, a: usize, b: usize) -> (res: Vec<char>)
    requires
        a <= b <= cs@.len(),
    ensures
        res@ == cs@.subrange(a as int, b as int),
{
    let mut res: Vec<char> = Vec::new();
    let mut i = a;
    while i < b
        invariant
            a <= i <= b <= cs@.len(),
            res@ == cs@.subrange(a as int, i as int),
        decreases b - i,
    {
        res.push(cs[i]);
        assert(cs@.subrange(a as int, i + 1) =~= cs@.subrange(a as int, i as int).push(cs@[i as int]));
        i = i + 1;
    }
    res
}

/// `cs` starts with `p`.
pub fn starts_with(cs: &Vec<char>, p: &Vec<char>) -> (res: bool)
    ensures
        res == has_prefix(cs@, p@),
{
    if p.len() > cs.len() {
        return false;
    }
    let mut i: usize = 0;
    while i < p.len()
        invariant
            i <= p@.len() <= cs@.len(),
            forall|k: int| 0 <= k < i ==> cs@[k] == p@[k],
        decreases p.len() - i,
    {
        if cs[i] != p[i] {
            assert(cs@.subrange(0, p@.len() as int)[i as int] != p@[i as int]);
            return false;
        }
        i = i + 1;
    }
    assert(cs@.subrange(0, p@.len() as int) =~= p@);
    true
}

/// `cs` with both ends trimmed, as a string.
pub fn trim_chars(cs: &Vec<char>) -> (res: String)
    ensures
        res@ == trim(cs@),
{
    let (a, b) = trim_bounds(cs);
    string_from_range(cs, a, b)
}

/// The parts joined with `sep` between neighbours.
pub fn join_chars(parts: &Vec<Vec<char>>, sep: &Vec<char>) -> (res: Vec<char>)
    ensures
        res@ == join(views(parts@), sep@),
{
    let mut res: Vec<char> = Vec::new();
    let mut i: usize = 0;
    while i < parts.len()
        invariant
            i <= parts@.len(),
            res@ == join(views(parts@.subrange(0, i as int)), sep@),
        decreases parts.len() - i,
    {
        let ghost before = res@;
        if i > 0 {
            append_chars(&mut res, sep);
        }
        append_chars(&mut res, &parts[i]);
        proof {
            let pre = parts@.subrange(0, i as int);
            let nxt = parts@.subrange(0, i + 1);
            assert(views(nxt).drop_last() =~= views(pre));
            assert(views(nxt).last() == parts@[i as int]@);
            if i == 0 {
                assert(views(nxt).len() == 1);
                assert(res@ =~= views(nxt)[0]);
            } else {
                assert(res@ =~= before + sep@ + parts@[i as int]@);
            }
        }
        i = i + 1;
    }
    assert(parts@.subrange(0, parts@.len() as int) =~= parts@);
    res
}

/// Appends the characters of `more` to `v`.
pub fn append_chars(v: &mut Vec<char>, more: &Vec<char>)
    ensures
        final(v)@ == old(v)@ + more@,
{
    let mut i: usize = 0;
    while i < more.len()
        invariant
            i <= more@.len(),
            v@ == old(v)@ + more@.subrange(0, i as int),
        decreases more.len() - i,
    {
        v.push(more[i]);
        assert(more@.subrange(0, i + 1) =~= more@.subrange(0, i as int).push(more@[i as int]));
        i = i + 1;
    }
    assert(more@.subrange(0, more@.len() as int) =~= more@);
}

proof fn lemma_decimal_len(n: nat)
    ensures
        decimal(n).len() >= 1,
    decreases n,
{
    if n >= 10 {
        lemma_decimal_len(n / 10);
    }
}

/// Decimal representation of `n`.
pub fn decimal_string(n: u64) -> (res: String)
    ensures
        res@ == decimal(n as nat),
    decreases n,
{
    let d = n % 10;
    let c = if d == 0 {
        '0'
    } else if d == 1 {
        '1'
    } else if d == 2 {
        '2'
    } else if d == 3 {
        '3'
    } else if d == 4 {
        '4'
    } else if d == 5 {
        '5'
    } else if d == 6 {
        '6'
    } else if d == 7 {
        '7'
    } else if d == 8 {
        '8'
    } else {
        '9'
    };
    assert(c == digit_char(d as nat));
    if n < 10 {
        let mut s = String::new();
        push_char(&mut s, c);
        assert(s@ =~= seq![c]);
        s
    } else {
        let mut s = decimal_string(n / 10);
        push_char(&mut s, c);
        s
    }
}

/// First position at or after `i` where `needle` occurs in `hay`.
pub open spec fn find_from(hay: Seq<char>, needle: Seq<char>, i: int) -> Option<int>
    decreases hay.len() + 1 - i,
{
    if i < 0 || i + needle.len() > hay.len() {
        None
    } else if occurs_at(hay, needle, i) {
        Some(i)
    } else {
        find_from(hay, needle, i + 1)
    }
}

/// First position where `needle` occurs in `hay` (as `str::find`).
pub open spec fn find(hay: Seq<char>, needle: Seq<char>) -> Option<int> {
    find_from(hay, needle, 0)
}

pub proof fn lemma_find_from(hay: Seq<char>, needle: Seq<char>, i: int)
    requires
        0 <= i,
    ensures
        match find_from(hay, needle, i) {
            Some(k) => i <= k && occurs_at(hay, needle, k) && forall|j: int|
                i <= j < k ==> !occurs_at(hay, needle, j),
            None => forall|j: int| i <= j ==> !occurs_at(hay, needle, j),
        },
    decreases hay.len() + 1 - i,
{
    if i + needle.len() > hay.len() {
    } else if occurs_at(hay, needle, i) {
    } else {
        lemma_find_from(hay, needle, i + 1);
        assert forall|j: int| i <= j && !(i + 1 <= j) implies !occurs_at(hay, needle, j) by {}
    }
}

/// `hay` holds `needle` at position `i`.
pub fn matches_at(hay: &Vec<char>, needle: &Vec<char>, i: usize) -> (res: bool)
    ensures
        res == occurs_at(hay@, needle@, i as int),
{
    if i > hay.len() || needle.len() > hay.len() - i {
        return false;
    }
    let limit = hay.len();
    let mut k: usize = 0;
    while k < needle.len()
        invariant
            limit == hay@.len(),
            i <= limit,
            i + needle@.len() <= limit,
            k <= needle@.len(),
            forall|m: int| 0 <= m < k ==> hay@[i + m] == needle@[m],
        decreases needle.len() - k,
    {
        if hay[i + k] != needle[k] {
            assert(hay@.subrange(i as int, i + needle@.len())[k as int] != needle@[k as int]);
            return false;
        }
        k = k + 1;
    }
    assert(hay@.subrange(i as int, i + needle@.len()) =~= needle@);
    true
}

/// First position at or after `from` where `needle` occurs in `hay`.
pub fn find_chars(hay: &Vec<char>, needle: &Vec<char>, from: usize) -> (res: Option<usize>)
    ensures
        match res {
            Some(k) => find_from(hay@, needle@, from as int) == Some(k as int),
            None => find_from(hay@, needle@, from as int) is None,
        },
{
    if from > hay.len() {
        return None;
    }
    let mut i = from;
    while needle.len() <= hay.len() - i
        invariant
            from <= i <= hay@.len(),
            find_from(hay@, needle@, from as int) == find_from(hay@, needle@, i as int),
        decreases hay.len() + 1 - i,
    {
        if matches_at(hay, needle, i) {
            return Some(i);
        }
        if i == hay.len() {
            assert(find_from(hay@, needle@, i + 1) is None);
            return None;
        }
        i = i + 1;
    }
    None
}

/// `needle` occurs somewhere in `hay` (as `str::contains`).
pub open spec fn contains(hay: Seq<char>, needle: Seq<char>) -> bool {
    find(hay, needle) is Some
}

/// Index `k` such that `trim_end(s) == s[..k]`.
pub fn trim_end_bound(cs: &Vec<char>) -> (k: usize)
    ensures
        k <= cs@.len(),
        trim_end(cs@) == cs@.subrange(0, k as int),
{
    let n = cs.len();
    let mut j: usize = n;
    assert(cs@.subrange(0, n as int) =~= cs@);
    while j > 0 && is_whitespace(cs[j - 1])
        invariant
            j <= n == cs@.len(),
            trim_end(cs@) == trim_end(cs@.subrange(0, j as int)),
        decreases j,
    {
        proof {
            lemma_trim_end_skip(cs@, j as int);
        }
        j = j - 1;
    }
    j
}

/// Every character of `s` is white space.
pub open spec fn all_ws(s: Seq<char>) -> bool {
    forall|i: int| 0 <= i < s.len() ==> is_ws(#[trigger] s[i])
}

pub proof fn lemma_find_none(hay: Seq<char>, needle: Seq<char>)
    ensures
        find(hay, needle) is None <==> forall|j: int| !occurs_at(hay, needle, j),
        find(hay, needle) matches Some(k) ==> occurs_at(hay, needle, k) && forall|j: int|
            0 <= j < k ==> !occurs_at(hay, needle, j),
{
    lemma_find_from(hay, needle, 0);
    if find(hay, needle) is None {
        assert forall|j: int| !occurs_at(hay, needle, j) by {
            if j >= 0 {
            }
        }
    }
}

/// The first occurrence at or after `i` is `k` when `needle` occurs at `k`
/// and nowhere in between.
pub proof fn lemma_find_from_is(hay: Seq<char>, needle: Seq<char>, i: int, k: int)
    requires
        0 <= i <= k,
        occurs_at(hay, needle, k),
        forall|j: int| i <= j < k ==> !occurs_at(hay, needle, j),
    ensures
        find_from(hay, needle, i) == Some(k),
{
    lemma_find_from(hay, needle, i);
}

pub proof fn lemma_occurs_left(a: Seq<char>, b: Seq<char>, n: Seq<char>, j: int)
    requires
        0 <= j,
        j + n.len() <= a.len(),
    ensures
        occurs_at(a + b, n, j) == occurs_at(a, n, j),
{
    assert((a + b).subrange(j, j + n.len()) =~= a.subrange(j, j + n.len()));
}

pub proof fn lemma_occurs_right(a: Seq<char>, b: Seq<char>, n: Seq<char>, j: int)
    requires
        a.len() <= j,
    ensures
        occurs_at(a + b, n, j) == occurs_at(b, n, j - a.len()),
{
    if j + n.len() <= a.len() + b.len() {
        assert((a + b).subrange(j, j + n.len()) =~= b.subrange(j - a.len(), j - a.len() + n.len()));
    }
}

/// An occurrence of a needle without line breaks cannot cover a line break.
pub proof fn lemma_occurs_not_across_newline(h: Seq<char>, n: Seq<char>, j: int, p: int)
    requires
        0 <= p < h.len(),
        h[p] == '\n',
        j <= p < j + n.len(),
        forall|i: int| 0 <= i < n.len() ==> n[i] != '\n',
    ensures
        !occurs_at(h, n, j),
{
    if occurs_at(h, n, j) {
        assert(h.subrange(j, j + n.len())[p - j] == h[p]);
    }
}

pub proof fn lemma_trim_end_ws_suffix(x: Seq<char>, w: Seq<char>)
    requires
        all_ws(w),
    ensures
        trim_end(x + w) == trim_end(x),
    decreases w.len(),
{
    if w.len() > 0 {
        assert((x + w).drop_last() =~= x + w.drop_last());
        assert((x + w).last() == w.last());
        lemma_trim_end_ws_suffix(x, w.drop_last());
    } else {
        assert(x + w =~= x);
    }
}

pub proof fn lemma_trim_start_keeps_suffix(x: Seq<char>, w: Seq<char>)
    requires
        exists|i: int| 0 <= i < x.len() && !is_ws(x[i]),
    ensures
        trim_start(x + w) == trim_start(x) + w,
    decreases x.len(),
{
    assert((x + w)[0] == x[0]);
    if is_ws(x[0]) {
        let i = choose|i: int| 0 <= i < x.len() && !is_ws(x[i]);
        assert(i > 0);
        assert(x.drop_first()[i - 1] == x[i]);
        assert((x + w).drop_first() =~= x.drop_first() + w);
        lemma_trim_start_keeps_suffix(x.drop_first(), w);
    }
}

pub proof fn lemma_trim_start_all_ws(x: Seq<char>)
    requires
        all_ws(x),
    ensures
        trim_start(x).len() == 0,
    decreases x.len(),
{
    if x.len() > 0 {
        assert(all_ws(x.drop_first())) by {
            assert forall|i: int| 0 <= i < x.drop_first().len() implies is_ws(#[trigger] x.drop_first()[i]) by {
                assert(x.drop_first()[i] == x[i + 1]);
            }
        }
        lemma_trim_start_all_ws(x.drop_first());
    }
}

/// `s` is `trim_end(s)` followed by white space only.
pub proof fn lemma_trim_end_split(s: Seq<char>)
    ensures
        exists|k: int| 0 <= k <= s.len() && trim_end(s) == s.subrange(0, k) && all_ws(s.subrange(k, s.len() as int))
            && (k > 0 ==> !is_ws(s[k - 1])),
    decreases s.len(),
{
    if s.len() > 0 && is_ws(s.last()) {
        lemma_trim_end_split(s.drop_last());
        let k = choose|k: int| 0 <= k <= s.drop_last().len() && trim_end(s.drop_last()) == s.drop_last().subrange(0, k) && all_ws(s.drop_last().subrange(k, s.drop_last().len() as int))
            && (k > 0 ==> !is_ws(s.drop_last()[k - 1]));
        assert(s.drop_last().subrange(0, k) =~= s.subrange(0, k));
        assert(all_ws(s.subrange(k, s.len() as int))) by {
            assert forall|i: int| 0 <= i < s.subrange(k, s.len() as int).len() implies is_ws(#[trigger] s.subrange(k, s.len() as int)[i]) by {
                if k + i < s.len() - 1 {
                    assert(s.subrange(k, s.len() as int)[i] == s.drop_last().subrange(k, s.drop_last().len() as int)[i]);
                }
            }
        }
    } else {
        assert(s.subrange(0, s.len() as int) =~= s);
        assert(s.subrange(s.len() as int, s.len() as int).len() == 0);
    }
}

/// Trimming ignores white space added at the end.
pub proof fn lemma_trim_ws_suffix(x: Seq<char>, w: Seq<char>)
    requires
        all_ws(w),
    ensures
        trim(x + w) == trim(x),
{
    if exists|i: int| 0 <= i < x.len() && !is_ws(x[i]) {
        lemma_trim_start_keeps_suffix(x, w);
        lemma_trim_end_ws_suffix(trim_start(x), w);
    } else {
        assert(all_ws(x));
        assert(all_ws(x + w)) by {
            assert forall|i: int| 0 <= i < (x + w).len() implies is_ws(#[trigger] (x + w)[i]) by {
                if i < x.len() {
                    assert((x + w)[i] == x[i]);
                } else {
                    assert((x + w)[i] == w[i - x.len()]);
                }
            }
        }
        lemma_trim_start_all_ws(x);
        lemma_trim_start_all_ws(x + w);
    }
}

/// Trimming the end first does not change the trimmed text.
pub proof fn lemma_trim_of_trim_end(s: Seq<char>)
    ensures
        trim(trim_end(s)) == trim(s),
{
    lemma_trim_end_split(s);
    let k = choose|k: int| 0 <= k <= s.len() && trim_end(s) == s.subrange(0, k) && all_ws(s.subrange(k, s.len() as int))
        && (k > 0 ==> !is_ws(s[k - 1]));
    assert(s =~= s.subrange(0, k) + s.subrange(k, s.len() as int));
    lemma_trim_ws_suffix(s.subrange(0, k), s.subrange(k, s.len() as int));
}

/// The view of an optional string.
pub open spec fn opt_string_view(o: Option<String>) -> Option<Seq<char>> {
    match o {
        Some(s) => Some(s@),
        None => None,
    }
}

/// The view of an optional string slice.
pub open spec fn opt_str_view(o: Option<&str>) -> Option<Seq<char>> {
    match o {
        Some(s) => Some(s@),
        None => None,
    }
}

/// A line with the `'\r'` of a `"\r\n"` ending removed.
pub open spec fn strip_cr(line: Seq<char>) -> Seq<char> {
    if line.len() > 0 && line.last() == '\r' {
        line.drop_last()
    } else {
        line
    }
}

/// Lines of `s`, `cur` being the line read so far (as `str::lines`).
pub open spec fn lines_from(cur: Seq<char>, s: Seq<char>) -> Seq<Seq<char>>
    decreases s.len(),
{
    if s.len() == 0 {
        if cur.len() == 0 {
            Seq::empty()
        } else {
            seq![cur]
        }
    } else if s[0] == '\n' {
        seq![strip_cr(cur)] + lines_from(Seq::empty(), s.drop_first())
    } else {
        lines_from(cur.push(s[0]), s.drop_first())
    }
}

pub open spec fn lines(s: Seq<char>) -> Seq<Seq<char>> {
    lines_from(Seq::empty(), s)
}

pub proof fn lemma_views_push(vs: Seq<Vec<char>>, v: Vec<char>)
    ensures
        views(vs.push(v)) == views(vs).push(v@),
{
    assert(views(vs.push(v)) =~= views(vs).push(v@));
}

pub fn strip_cr_exec(line: Vec<char>) -> (res: Vec<char>)
    ensures
        res@ == strip_cr(line@),
{
    let mut line = line;
    if line.len() > 0 && line[line.len() - 1] == '\r' {
        line.pop();
    }
    line
}

/// The lines of `cs`, as `str::lines` gives them.
pub fn split_lines(cs: &Vec<char>) -> (res: Vec<Vec<char>>)
    ensures
        views(res@) == lines(cs@),
{
    let ghost all = cs@;
    let n = cs.len();
    let mut res: Vec<Vec<char>> = Vec::new();
    let mut cur: Vec<char> = Vec::new();
    let mut i: usize = 0;
    assert(all.subrange(0, n as int) =~= all);
    assert(views(res@) =~= Seq::<Seq<char>>::empty());
    while i < n
        invariant
            i <= n == all.len(),
            all == cs@,
            lines(all) == views(res@) + lines_from(cur@, all.subrange(i as int, n as int)),
        decreases n - i,
    {
        let ghost rest = all.subrange(i as int, n as int);
        let ghost res_old = views(res@);
        let ghost cur_old = cur@;
        proof {
            assert(rest.drop_first() =~= all.subrange(i + 1, n as int));
        }
        if cs[i] == '\n' {
            let done = strip_cr_exec(cur);
            cur = Vec::new();
            res.push(done);
            proof {
                lemma_views_push(res@.drop_last(), done);
                assert(res@.drop_last().push(done) =~= res@);
                let tail = all.subrange(i + 1, n as int);
                assert(res_old + (seq![strip_cr(cur_old)] + lines_from(Seq::empty(), tail)) =~= views(res@) + lines_from(cur@, tail));
            }
        } else {
            cur.push(cs[i]);
        }
        i = i + 1;
    }
    assert(all.subrange(n as int, n as int) =~= Seq::<char>::empty());
    if cur.len() > 0 {
        let ghost res_old = views(res@);
        let ghost cur_v = cur@;
        res.push(cur);
        proof {
            lemma_views_push(res@.drop_last(), cur);
            assert(res@.drop_last().push(cur) =~= res@);
            assert(res_old + seq![cur_v] =~= views(res@));
        }
    } else {
        assert(views(res@) + Seq::<Seq<char>>::empty() =~= views(res@));
    }
    res
}

/// `c` in lower case, for ASCII letters.
pub open spec fn ascii_lower(c: char) -> char {
    if 'A' <= c && c <= 'Z' {
        ((c as u32) + 32) as char
    } else {
        c
    }
}

/// `c` in lower case, for ASCII letters (`char::to_ascii_lowercase`).
pub fn ascii_lowercase(c: char) -> (res: char)
    ensures
        res == ascii_lower(c),
{
    if 'A' <= c && c <= 'Z' {
        let code: u8 = (c as u8) + 32;
        code as char
    } else {
        c
    }
}

} // verus!
