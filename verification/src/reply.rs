//! Decoding what the mail backend answers to a fetch of one message.

use vstd::prelude::*;
use crate::text::{same_text, text_of};

verus! {

/// The members of the JSON object that `raw` holds, each with its text
/// where its value is a string: `None` where `raw` is no JSON document or
/// the document is no object.
pub uninterp spec fn json_members(raw: Seq<char>) -> Option<Seq<(Seq<char>, Option<Seq<char>>)>>;

/// The views of the members of an object.
pub open spec fn member_views(members: Seq<(String, Option<String>)>) -> Seq<
    (Seq<char>, Option<Seq<char>>),
> {
    Seq::new(members.len(), |i: int| (members[i].0@, text_of(members[i].1)))
}

/// The views of the members of an object, if there is one.
pub open spec fn object_view(object: Option<Vec<(String, Option<String>)>>) -> Option<
    Seq<(Seq<char>, Option<Seq<char>>)>,
> {
    match object {
        Some(members) => Some(member_views(members@)),
        None => None,
    }
}

/// Parses `raw` with `serde_json::from_str` into a `serde_json::Value` and,
/// where the value is an object, hands out its members one for one: the
/// key, and the text of a value that is a string. The contract only gives
/// the result a name.
#[verifier::external_body]
fn parse_object(raw: &str) -> (object: Option<Vec<(String, Option<String>)>>)
    ensures
        object_view(object) == json_members(raw@),
{
    match serde_json::from_str::<serde_json::Value>(raw) {
        Ok(serde_json::Value::Object(map)) => {
            let mut members = Vec::new();
            for (key, value) in map {
                members.push((key, match value {
                    serde_json::Value::String(text) => Some(text),
                    _ => None,
                }));
            }
            Some(members)
        },
        _ => None,
    }
}

/// The text of the first member named `key`: `None` where there is no such
/// member, or its value is no string.
pub open spec fn text_in(members: Seq<(Seq<char>, Option<Seq<char>>)>, key: Seq<char>) -> Option<
    Seq<char>,
>
    decreases members.len(),
{
    if members.len() == 0 {
        None
    } else if members[0].0 == key {
        members[0].1
    } else {
        text_in(members.drop_first(), key)
    }
}

/// The body of a message in a decoded answer: the text of the member
/// `response`, `None` where the answer is no object or has no such text.
pub open spec fn body_in(object: Option<Seq<(Seq<char>, Option<Seq<char>>)>>) -> Option<Seq<char>> {
    match object {
        Some(members) => text_in(members, "response"@),
        None => None,
    }
}

/// Looks up the text of the member named `key`.
pub fn member_text(members: &Vec<(String, Option<String>)>, key: &str) -> (r: Option<String>)
    ensures
        text_of(r) == text_in(member_views(members@), key@),
{
    let ghost all = member_views(members@);
    let mut i: usize = 0;
    proof {
        assert(all.skip(0) =~= all);
    }
    while i < members.len()
        invariant
            i <= members.len(),
            all == member_views(members@),
            text_in(all, key@) == text_in(all.skip(i as int), key@),
        decreases members.len() - i,
    {
        proof {
            assert(all.skip(i as int).drop_first() =~= all.skip(i + 1));
        }
        if same_text(members[i].0.as_str(), key) {
            return members[i].1.clone();
        }
        i += 1;
    }
    None
}

/// The body of a message from the backend's answer to a fetch, `None`
/// where the answer does not decode.
pub fn decode_body(raw: &str) -> (body: Option<String>)
    ensures
        text_of(body) == body_in(json_members(raw@)),
{
    match parse_object(raw) {
        Some(members) => member_text(&members, "response"),
        None => None,
    }
}

} // verus!
