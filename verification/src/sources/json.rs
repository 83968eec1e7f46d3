//! The shapes of JSON that registries use where a field has no fixed type.

use vstd::prelude::*;
use crate::text::same_text;

verus! {

/// A JSON value, as far as the answers' free-form fields are read.
#[derive(Debug)]
pub enum JsonValue {
    Null,
    Text(String),
    /// The members of an object, in any order; no name occurs twice.
    Object(Vec<(String, JsonValue)>),
    /// A boolean, a number or an array.
    Other,
}

/// The text that the first member of that name holds, if it is a text.
pub open spec fn member_text(members: Seq<(String, JsonValue)>, name: Seq<char>) -> Option<Seq<char>>
    decreases members.len(),
{
    if members.len() == 0 {
        None
    } else if members[0].0@ == name {
        match members[0].1 {
            JsonValue::Text(s) => Some(s@),
            _ => None,
        }
    } else {
        member_text(members.drop_first(), name)
    }
}

/// The license that a manifest's `license` field names: a non-empty text, or the
/// `type` of an object.
pub open spec fn license_text(v: JsonValue) -> Option<Seq<char>> {
    match v {
        JsonValue::Text(s) => if s@.len() > 0 {
            Some(s@)
        } else {
            None
        },
        JsonValue::Object(o) => member_text(o@, "type"@),
        _ => None,
    }
}

/// The license that a manifest's `license` field names, if any.
pub fn extract_license(v: &JsonValue) -> (r: Option<String>)
    ensures
        r.deep_view() == license_text(*v),
{
    match v {
        JsonValue::Text(s) => if s.as_str().is_empty() {
            None
        } else {
            Some(s.clone())
        },
        JsonValue::Object(o) => {
            let mut i: usize = 0;
            assert(o@.skip(0) =~= o@);
            while i < o.len()
                invariant
                    i <= o.len(),
                    license_text(*v) == member_text(o@, "type"@),
                    member_text(o@, "type"@) == member_text(o@.skip(i as int), "type"@),
                decreases o.len() - i,
            {
                assert(o@.skip(i as int).drop_first() =~= o@.skip(i + 1));
                if same_text(&o[i].0, "type") {
                    return match &o[i].1 {
                        JsonValue::Text(s) => Some(s.clone()),
                        _ => None,
                    };
                }
                i += 1;
            }
            None
        },
        _ => None,
    }
}

} // verus!
