//! Reading and writing JSON, which is left to `serde_json`.

use vstd::prelude::*;

use crate::db;

verus! {

/// A member of a JSON object: its name, its value if that is a string, and its value if that is an
/// integer of 64 signed bits.
#[derive(Debug, PartialEq)]
pub struct JsonMember {
    pub name: String,
    pub text: Option<String>,
    pub integer: Option<i64>,
}

/// The model of a `JsonMember`.
pub struct JsonMemberView {
    pub name: Seq<char>,
    pub text: Option<Seq<char>>,
    pub integer: Option<i64>,
}

impl View for JsonMember {
    type V = JsonMemberView;

    open spec fn view(&self) -> JsonMemberView {
        JsonMemberView {
            name: self.name@,
            text: db::optional_text(self.text),
            integer: self.integer,
        }
    }
}

/// The models of the members of an object.
pub open spec fn member_views(members: Seq<JsonMember>) -> Seq<JsonMemberView> {
    members.map_values(|member: JsonMember| member@)
}

/// Whether no two members share a name.
pub open spec fn distinct_names(members: Seq<JsonMemberView>) -> bool {
    forall|i: int, j: int|
        0 <= i < j < members.len() ==> (#[trigger] members[i]).name != (#[trigger] members[j]).name
}

/// The members of the JSON object that `text` writes, in the order in which `serde_json` walks
/// them; `None` where `text` is no JSON or writes something other than an object.
pub uninterp spec fn json_object(text: Seq<char>) -> Option<Seq<JsonMemberView>>;

/// `serde_json::from_str` into a `serde_json::Value`, and what `as_object`, `as_str` and `as_i64`
/// say of it.
///
/// What comes back is a function of the text alone, `json_object`. The object keeps its members in
/// a map keyed by name, so no name comes twice.
#[verifier::external_body]
pub(crate) fn parse_object(text: &str) -> (members: Option<Vec<JsonMember>>)
    ensures
        match members {
            Some(members) => json_object(text@) == Some(member_views(members@)) && distinct_names(
                member_views(members@),
            ),
            None => json_object(text@) is None,
        },
{
    let value = serde_json::from_str::<serde_json::Value>(text).ok()?;
    let members = value.as_object()?.iter().map(|(name, value)| JsonMember {
        name: name.clone(),
        text: value.as_str().map(String::from),
        integer: value.as_i64(),
    });
    Some(members.collect())
}

/// The digit that writes `d` in hexadecimal.
pub open spec fn hex_digit(d: int) -> char {
    if d < 10 {
        ('0' as int + d) as char
    } else {
        ('a' as int + d - 10) as char
    }
}

/// How a character stands inside a JSON string.
pub open spec fn json_escape(c: char) -> Seq<char> {
    if c == '"' {
        seq!['\\', '"']
    } else if c == '\\' {
        seq!['\\', '\\']
    } else if c == '\u{8}' {
        seq!['\\', 'b']
    } else if c == '\u{c}' {
        seq!['\\', 'f']
    } else if c == '\n' {
        seq!['\\', 'n']
    } else if c == '\r' {
        seq!['\\', 'r']
    } else if c == '\t' {
        seq!['\\', 't']
    } else if c as int <= 0x1f {
        seq!['\\', 'u', '0', '0', hex_digit(c as int / 16), hex_digit(c as int % 16)]
    } else {
        seq![c]
    }
}

/// A text as a JSON string.
pub open spec fn json_string(text: Seq<char>) -> Seq<char> {
    seq!['"'] + text.map_values(|c: char| json_escape(c)).flatten() + seq!['"']
}

/// The JSON object whose only member is a string, with no white space.
pub open spec fn json_pair(name: Seq<char>, text: Seq<char>) -> Seq<char> {
    seq!['{'] + json_string(name) + seq![':'] + json_string(text) + seq!['}']
}

/// `serde_json::Map::insert`, and `to_string` of the `serde_json::Value` that holds the map.
///
/// The object is written in the compact form, its strings escaped as `json_escape` says, and
/// `serde_json` reads it back as an object with that one member.
#[verifier::external_body]
pub(crate) fn write_pair(name: &str, text: &str) -> (json: String)
    ensures
        json@ == json_pair(name@, text@),
        json_object(json@) == Some(
            seq![JsonMemberView { name: name@, text: Some(text@), integer: None }],
        ),
{
    let mut object = serde_json::Map::new();
    object.insert(name.to_string(), serde_json::Value::String(text.to_string()));
    serde_json::Value::Object(object).to_string()
}

/// The members of an object are seen as they are, in their order.
pub proof fn law_members_are_seen_as_they_are(members: Seq<JsonMember>, i: int)
    requires
        0 <= i < members.len(),
    ensures
        member_views(members).len() == members.len(),
        member_views(members)[i].name == members[i].name@,
        member_views(members)[i].integer == members[i].integer,
        match members[i].text {
            Some(text) => member_views(members)[i].text == Some(text@),
            None => member_views(members)[i].text is None,
        },
{
}

} // verus!
