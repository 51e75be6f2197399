//! A plain model of a decoded JSON document and the member lookups that the
//! Hermes event handling reads.
//!
//! Objects keep their members as a list of `(name, value)` pairs.  A decoded
//! object never holds a name twice, so "the first member with this name" is
//! the member with this name.
use vstd::prelude::*;

verus! {

/// A decoded JSON value.  Numbers are kept in their textual form since no
/// logic here reads them.
#[derive(Debug)]
pub enum Json {
    Null,
    Bool(bool),
    Number(String),
    Str(String),
    Array(Vec<Json>),
    Object(Vec<(String, Json)>),
}

/// The value of the first member named `key` among `members`.
pub open spec fn member_of(members: Seq<(String, Json)>, key: Seq<char>) -> Option<Json>
    decreases members.len(),
{
    if members.len() == 0 {
        None
    } else if members[0].0@ == key {
        Some(members[0].1)
    } else {
        member_of(members.drop_first(), key)
    }
}

/// `value[key]` for an object, `None` for anything else (as `Value::get` with a `&str`).
pub open spec fn get(value: Json, key: Seq<char>) -> Option<Json> {
    match value {
        Json::Object(members) => member_of(members@, key),
        _ => None,
    }
}

/// The text of a string value (as `Value::as_str`).
pub open spec fn as_str(value: Option<Json>) -> Option<Seq<char>> {
    match value {
        Some(Json::Str(s)) => Some(s@),
        _ => None,
    }
}

/// Position of the first member named `key`, if any.
fn find_member(members: &Vec<(String, Json)>, key: &str) -> (res: Option<usize>)
    ensures
        match res {
            Some(i) => i < members@.len() && member_of(members@, key@) == Some(members@[i as int].1),
            None => member_of(members@, key@) is None,
        },
{
    let ghost all = members@;
    let target = String::from_str(key);
    let mut i: usize = 0;
    assert(all.subrange(0, all.len() as int) =~= all);
    while i < members.len()
        invariant
            i <= members@.len(),
            all == members@,
            target@ == key@,
            member_of(all, key@) == member_of(all.subrange(i as int, all.len() as int), key@),
        decreases members.len() - i,
    {
        let ghost rest = all.subrange(i as int, all.len() as int);
        if members[i].0 == target {
            return Some(i);
        }
        assert(rest.drop_first() =~= all.subrange(i + 1, all.len() as int));
        i = i + 1;
    }
    None
}

/// `value[key]`, borrowed.
pub fn get_member<'a>(value: &'a Json, key: &str) -> (res: Option<&'a Json>)
    ensures
        match res {
            Some(r) => get(*value, key@) == Some(*r),
            None => get(*value, key@) is None,
        },
{
    match value {
        Json::Object(members) => match find_member(members, key) {
            Some(i) => Some(&members[i].1),
            None => None,
        },
        _ => None,
    }
}

/// The text of `value[key]` when it is a string.
pub fn get_str<'a>(value: &'a Json, key: &str) -> (res: Option<&'a String>)
    ensures
        match res {
            Some(s) => as_str(get(*value, key@)) == Some(s@),
            None => as_str(get(*value, key@)) is None,
        },
{
    match get_member(value, key) {
        Some(Json::Str(s)) => Some(s),
        _ => None,
    }
}

} // verus!
