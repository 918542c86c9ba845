//! JSON text, as far as the protocol reads and writes it.
//!
//! Reading and writing JSON is left to `serde_json`. This module declares what
//! is taken on trust about it, and offers the two conversions the protocol
//! needs: quoting a string, and listing the members of an object.

use vstd::prelude::*;

verus! {

#[verifier::external_type_specification]
#[verifier::external_body]
pub struct ExJsonError(serde_json::Error);

/// The JSON string literal that `serde_json` writes for `s`, quotes included;
/// `None` where the encoder reports an error.
pub uninterp spec fn json_string_literal(s: Seq<char>) -> Option<Seq<char>>;

/// The members of the JSON object that `serde_json` reads from `text`, each
/// with its key and, where its value is a JSON string, that string; `None`
/// where `text` is not one JSON object. A key that the text repeats counts
/// once, as `serde_json::Map` keeps it.
pub uninterp spec fn json_object_members(text: Seq<char>) -> Option<
    Seq<(Seq<char>, Option<Seq<char>>)>,
>;

/// Calls `serde_json::to_string` on a string slice.
///
/// Trusted: the result is a function of the characters of `s` alone, which
/// [`json_string_literal`] names. Nothing is claimed about what the literal
/// looks like, nor that encoding succeeds.
#[verifier::external_body]
pub(crate) fn encode_string(s: &str) -> (r: Result<String, serde_json::Error>)
    ensures
        match r {
            Ok(literal) => json_string_literal(s@) == Some(literal@),
            Err(_) => json_string_literal(s@) is None,
        },
{
    serde_json::to_string(s)
}

/// Calls `serde_json::from_str` for a `serde_json::Map<String, Value>`, and
/// hands out each member of the map with its key and the string it holds, if
/// it holds one.
///
/// Trusted: whether parsing succeeds and what members come out is a function
/// of the characters of `text` alone, which [`json_object_members`] names.
/// Nothing is claimed about which texts parse.
#[verifier::external_body]
pub(crate) fn parse_object(text: &str) -> (r: Result<
    Vec<(String, Option<String>)>,
    serde_json::Error,
>)
    ensures
        match r {
            Ok(members) => json_object_members(text@) == Some(members.deep_view()),
            Err(_) => json_object_members(text@) is None,
        },
{
    let object = serde_json::from_str::<serde_json::Map<String, serde_json::Value>>(text)?;
    Ok(object.into_iter().map(|(key, value)| match value {
        serde_json::Value::String(s) => (key, Some(s)),
        _ => (key, None),
    }).collect())
}

/// What a lookup of `key` among `members` finds: `None` where no member has
/// that key, otherwise the string held by the first member that has it
/// (`Some(None)` where that member holds something other than a string).
pub open spec fn member_text(
    members: Seq<(Seq<char>, Option<Seq<char>>)>,
    key: Seq<char>,
) -> Option<Option<Seq<char>>>
    decreases members.len(),
{
    if members.len() == 0 {
        None
    } else if members[0].0 == key {
        Some(members[0].1)
    } else {
        member_text(members.drop_first(), key)
    }
}

/// Looks `key` up among the members of a parsed object.
pub fn find_member<'a>(members: &'a Vec<(String, Option<String>)>, key: &str) -> (r: Option<
    &'a Option<String>,
>)
    ensures
        match member_text(members.deep_view(), key@) {
            None => r is None,
            Some(None) => r matches Some(found) && found is None,
            Some(Some(text)) => r matches Some(found) && found matches Some(s) && s@ == text,
        },
{
    let wanted = String::from_str(key);
    let ghost all = members.deep_view();
    let mut i: usize = 0;
    assert(all.skip(0) == all);
    while i < members.len()
        invariant
            i <= members.len(),
            all == members.deep_view(),
            wanted@ == key@,
            member_text(all, key@) == member_text(all.skip(i as int), key@),
        decreases members.len() - i,
    {
        proof {
            assert(all.skip(i as int)[0] == all[i as int]);
            assert(all[i as int] == members@[i as int].deep_view());
            assert(all.skip(i as int).drop_first() == all.skip(i as int + 1));
        }
        if members[i].0 == wanted {
            return Some(&members[i].1);
        }
        i += 1;
    }
    None
}

} // verus!
