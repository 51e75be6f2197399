//! Checking a downloaded release.
//!
//! Fetching the release is the application's work; this module says which
//! asset is wanted, decides whether the release is newer than the running
//! program, and checks the downloaded binary against its published SHA-256
//! checksum.
use vstd::prelude::*;

use crate::error::SearchError;
use crate::text::{self, ascii_lower, is_ws, trim_start};

verus! {

pub const RELEASE_API: &'static str = "https://api.github.com/repos/ShehabYahya/Hermes-Search-Agent/releases/latest";

pub const ASSET: &'static str = "hermes-search-agent-linux-x86_64";

/// The SHA-256 digest of `bytes` (`sha2::Sha256::digest`).
pub uninterp spec fn sha256_of(bytes: Seq<u8>) -> Seq<u8>;

/// The SHA-256 digest of `bytes`; it is 32 bytes long.
#[verifier::external_body]
fn sha256(bytes: &[u8]) -> (res: Vec<u8>)
    ensures
        res@ == sha256_of(bytes@),
        res@.len() == 32,
{
    <sha2::Sha256 as sha2::Digest>::digest(bytes).to_vec()
}

/// The lower-case hexadecimal digit of `d < 16`.
pub open spec fn hex_digit(d: nat) -> char {
    if d < 10 {
        (('0' as nat) + d) as char
    } else {
        (('a' as nat) + d - 10) as char
    }
}

/// Two lower-case hexadecimal digits per byte, high half first.
pub open spec fn hex_text(bytes: Seq<u8>) -> Seq<char>
    decreases bytes.len(),
{
    if bytes.len() == 0 {
        Seq::empty()
    } else {
        hex_text(bytes.drop_last()) + seq![
            hex_digit((bytes.last() / 16) as nat),
            hex_digit((bytes.last() % 16) as nat),
        ]
    }
}

/// The lower-case hexadecimal digit of `d`.
fn hex_digit_char(d: u8) -> (c: char)
    requires
        d < 16,
    ensures
        c == hex_digit(d as nat),
{
    if d < 10 {
        ((48u8 + d) as char)
    } else {
        ((87u8 + d) as char)
    }
}

/// `bytes` in lower-case hexadecimal, two digits per byte, high half first.
fn hex_encode(bytes: &[u8]) -> (res: String)
    ensures
        res@ == hex_text(bytes@),
{
    let mut res = String::new();
    let mut i: usize = 0;
    while i < bytes.len()
        invariant
            i <= bytes@.len(),
            res@ == hex_text(bytes@.subrange(0, i as int)),
        decreases bytes@.len() - i,
    {
        let b = bytes[i];
        text::push_char(&mut res, hex_digit_char(b / 16));
        text::push_char(&mut res, hex_digit_char(b % 16));
        proof {
            let pre = bytes@.subrange(0, i as int + 1);
            assert(pre.drop_last() =~= bytes@.subrange(0, i as int));
            assert(pre.last() == b);
        }
        i = i + 1;
    }
    assert(bytes@.subrange(0, bytes@.len() as int) =~= bytes@);
    res
}

/// The first white-space-free run of characters of `t`.
pub open spec fn token(t: Seq<char>) -> Seq<char>
    decreases t.len(),
{
    if t.len() == 0 || is_ws(t[0]) {
        Seq::empty()
    } else {
        seq![t[0]] + token(t.drop_first())
    }
}

/// The first word of `s` (`split_whitespace().next()`).
pub open spec fn first_word(s: Seq<char>) -> Option<Seq<char>> {
    if trim_start(s).len() == 0 {
        None
    } else {
        Some(token(trim_start(s)))
    }
}

/// `a` and `b` are equal when ASCII letters are compared without case.
pub open spec fn eq_ignore_ascii_case(a: Seq<char>, b: Seq<char>) -> bool {
    a.map_values(|c: char| ascii_lower(c)) == b.map_values(|c: char| ascii_lower(c))
}

/// The outcome of checking a download against its checksum file: the
/// file's first word must be the download's SHA-256 digest in hexadecimal,
/// in either case.
pub open spec fn checksum_outcome(checksum_text: Seq<char>, bytes: Seq<u8>) -> Result<(), Seq<char>> {
    match first_word(checksum_text) {
        None => Err("invalid checksum asset"@),
        Some(expected) => {
            let actual = hex_text(sha256_of(bytes));
            if eq_ignore_ascii_case(expected, actual) {
                Ok(())
            } else {
                Err("checksum mismatch: expected "@ + expected + ", got "@ + actual)
            }
        },
    }
}

fn first_token(cs: &Vec<char>) -> (res: Option<(usize, usize)>)
    ensures
        match first_word(cs@) {
            None => res is None,
            Some(w) => res matches Some((a, b)) && a <= b <= cs@.len() && cs@.subrange(a as int, b as int) == w,
        },
{
    let a = text::trim_start_bound(cs);
    let n = cs.len();
    if a == n {
        return None;
    }
    let ghost t = cs@.subrange(a as int, n as int);
    let mut b = a;
    assert(t.subrange(0, t.len() as int) =~= t);
    while b < n && !text::is_whitespace(cs[b])
        invariant
            a <= b <= n == cs@.len(),
            t == cs@.subrange(a as int, n as int),
            token(t) == cs@.subrange(a as int, b as int) + token(t.subrange((b - a) as int, t.len() as int)),
        decreases n - b,
    {
        let ghost k = (b - a) as int;
        assert(t.subrange(k, t.len() as int).drop_first() =~= t.subrange(k + 1, t.len() as int));
        assert(t.subrange(k, t.len() as int)[0] == cs@[b as int]);
        assert(cs@.subrange(a as int, b + 1) =~= cs@.subrange(a as int, b as int).push(cs@[b as int]));
        b = b + 1;
    }
    proof {
        let rest = t.subrange((b - a) as int, t.len() as int);
        if b < n {
            assert(rest[0] == cs@[b as int]);
        }
        assert(token(rest) =~= Seq::<char>::empty());
        assert(token(t) =~= cs@.subrange(a as int, b as int));
    }
    Some((a, b))
}

fn lowered(cs: &Vec<char>, a: usize, b: usize) -> (res: Vec<char>)
    requires
        a <= b <= cs@.len(),
    ensures
        res@ == cs@.subrange(a as int, b as int).map_values(|c: char| ascii_lower(c)),
{
    let mut out: Vec<char> = Vec::new();
    let mut i = a;
    while i < b
        invariant
            a <= i <= b <= cs@.len(),
            out@ == cs@.subrange(a as int, i as int).map_values(|c: char| ascii_lower(c)),
        decreases b - i,
    {
        out.push(text::ascii_lowercase(cs[i]));
        assert(cs@.subrange(a as int, i + 1).map_values(|c: char| ascii_lower(c)) =~= cs@.subrange(
            a as int,
            i as int,
        ).map_values(|c: char| ascii_lower(c)).push(ascii_lower(cs@[i as int])));
        i = i + 1;
    }
    out
}

fn same_chars(x: &Vec<char>, y: &Vec<char>) -> (res: bool)
    ensures
        res == (x@ == y@),
{
    if x.len() != y.len() {
        return false;
    }
    let mut i: usize = 0;
    while i < x.len()
        invariant
            i <= x@.len() == y@.len(),
            forall|j: int| 0 <= j < i ==> x@[j] == y@[j],
        decreases x.len() - i,
    {
        if x[i] != y[i] {
            return false;
        }
        i = i + 1;
    }
    assert(x@ =~= y@);
    true
}

/// Checks a downloaded binary against the release's checksum file.
pub fn check_checksum(checksum_text: &str, bytes: &[u8]) -> (res: Result<(), SearchError>)
    ensures
        match checksum_outcome(checksum_text@, bytes@) {
            Ok(()) => res is Ok,
            Err(m) => res matches Err(SearchError::Install(x)) && x@ == m,
        },
{
    let cs = text::chars_of(checksum_text);
    let (a, b) = match first_token(&cs) {
        Some(r) => r,
        None => return Err(SearchError::Install(String::from_str("invalid checksum asset"))),
    };
    let digest = sha256(bytes);
    let actual = hex_encode(digest.as_slice());
    let actual_cs = text::chars_of(actual.as_str());
    let left = lowered(&cs, a, b);
    let n = actual_cs.len();
    let right = lowered(&actual_cs, 0, n);
    assert(actual_cs@.subrange(0, n as int) =~= actual_cs@);
    if same_chars(&left, &right) {
        Ok(())
    } else {
        let mut m = String::from_str("checksum mismatch: expected ");
        let expected = text::string_from_range(&cs, a, b);
        m.append(expected.as_str());
        m.append(", got ");
        m.append(actual.as_str());
        Err(SearchError::Install(m))
    }
}

/// The version text of a release tag: the tag without leading `v`s.
pub open spec fn version_text(tag: Seq<char>) -> Seq<char>
    decreases tag.len(),
{
    if tag.len() > 0 && tag[0] == 'v' {
        version_text(tag.drop_first())
    } else {
        tag
    }
}

/// The version text of a release tag.
pub fn release_version_text(tag: &str) -> (res: String)
    ensures
        res@ == version_text(tag@),
{
    let cs = text::chars_of(tag);
    let n = cs.len();
    let mut i: usize = 0;
    assert(cs@.subrange(0, n as int) =~= cs@);
    while i < n && cs[i] == 'v'
        invariant
            i <= n == cs@.len(),
            cs@ == tag@,
            version_text(tag@) == version_text(cs@.subrange(i as int, n as int)),
        decreases n - i,
    {
        assert(cs@.subrange(i as int, n as int).drop_first() =~= cs@.subrange(i + 1, n as int));
        i = i + 1;
    }
    text::string_from_range(&cs, i, n)
}


/// The message `semver::Version::parse` gives for `text`, or `None` when
/// `text` is a valid version.
pub uninterp spec fn semver_error(text: Seq<char>) -> Option<Seq<char>>;

/// Whether version `a` orders after version `b` (`Version`'s `>`), for two
/// valid version texts.
pub uninterp spec fn semver_newer(a: Seq<char>, b: Seq<char>) -> bool;

/// The parse error of a version text (`semver::Version::parse`), rendered
/// as text, or `None` when it parses.
#[verifier::external_body]
fn version_error(text: &str) -> (res: Option<String>)
    ensures
        text::opt_string_view(res) == semver_error(text@),
{
    semver::Version::parse(text).err().map(|e| e.to_string())
}

/// Whether the version `a` orders after `b` (`>` on `semver::Version`).
#[verifier::external_body]
fn version_newer(a: &str, b: &str) -> (res: bool)
    requires
        semver_error(a@) is None,
        semver_error(b@) is None,
    ensures
        res == semver_newer(a@, b@),
{
    match (semver::Version::parse(a), semver::Version::parse(b)) {
        (Ok(x), Ok(y)) => x > y,
        _ => false,
    }
}

/// Whether a release, by its tag (leading `v`s dropped), is newer than the
/// running version `current`; both must be valid versions.
pub fn newer_release(tag: &str, current: &str) -> (res: Result<bool, SearchError>)
    ensures
        match semver_error(version_text(tag@)) {
            Some(e) => res matches Err(SearchError::Install(m)) && m@ == "release tag is not semver: "@ + e,
            None => match semver_error(current@) {
                Some(e) => res matches Err(SearchError::Install(m)) && m@ == "current version is not semver: "@ + e,
                None => res == Ok::<bool, SearchError>(semver_newer(version_text(tag@), current@)),
            },
        },
{
    let remote = release_version_text(tag);
    if let Some(e) = version_error(remote.as_str()) {
        let mut m = String::from_str("release tag is not semver: ");
        m.append(e.as_str());
        return Err(SearchError::Install(m));
    }
    if let Some(e) = version_error(current) {
        let mut m = String::from_str("current version is not semver: ");
        m.append(e.as_str());
        return Err(SearchError::Install(m));
    }
    Ok(version_newer(remote.as_str(), current))
}
} // verus!
