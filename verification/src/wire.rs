//! The JSON frames of the wire protocol: an event becomes one object with a
//! `type` member and the variant's fields, and a client's text is read as a
//! request. Strings are quoted, and client text is parsed, by `serde_json`.

use vstd::prelude::*;
use vstd::string::StringExecFns;
use crate::event::{Event, EventView, Request, texts};

verus! {

/// The JSON string literal, quotes and escapes included, that `serde_json`
/// writes for a text.
pub uninterp spec fn json_quoted(text: Seq<char>) -> Seq<char>;

/// The string under the member `name` of the JSON object that `text` parses
/// to: `None` where `text` is no JSON document, the document is no object, the
/// object has no such member or the member is no string.
pub uninterp spec fn json_string_member(text: Seq<char>, name: Seq<char>) -> Option<Seq<char>>;

/// The boolean under the member `name` of the JSON object that `text` parses
/// to: `None` where `text` is no JSON document, the document is no object, the
/// object has no such member or the member is no boolean.
pub uninterp spec fn json_bool_member(text: Seq<char>, name: Seq<char>) -> Option<bool>;

/// Calls `serde_json::to_string` on a string slice. Not proved: that the
/// result is the JSON literal that `json_quoted` names, and that writing a
/// string slice into memory does not fail.
#[verifier::external_body]
fn quote(text: &str) -> (quoted: String)
    ensures
        quoted@ == json_quoted(text@),
{
    match serde_json::to_string(text) {
        Ok(quoted) => quoted,
        Err(_) => String::new(),
    }
}

/// The texts that optional strings hold.
pub open spec fn text_of(found: Option<String>) -> Option<Seq<char>> {
    match found {
        Some(s) => Some(s@),
        None => None,
    }
}

/// Parses `text` with `serde_json::from_str` into a `serde_json::Value`, looks
/// the two names up with `Value::get`, and reads the first member with
/// `Value::as_str` and the second with `Value::as_bool`. Not proved: that the
/// results are those that `json_string_member` and `json_bool_member` name.
#[verifier::external_body]
fn read_members(text: &str, tag: &str, flag: &str) -> (found: (Option<String>, Option<bool>))
    ensures
        text_of(found.0) == json_string_member(text@, tag@),
        found.1 == json_bool_member(text@, flag@),
{
    match serde_json::from_str::<serde_json::Value>(text) {
        Ok(value) => (
            value.get(tag).and_then(|member| member.as_str()).map(String::from),
            value.get(flag).and_then(|member| member.as_bool()),
        ),
        Err(_) => (None, None),
    }
}

/// The decimal digit `d` as text.
pub open spec fn digit_text(d: int) -> Seq<char> {
    if d == 0 {
        "0"@
    } else if d == 1 {
        "1"@
    } else if d == 2 {
        "2"@
    } else if d == 3 {
        "3"@
    } else if d == 4 {
        "4"@
    } else if d == 5 {
        "5"@
    } else if d == 6 {
        "6"@
    } else if d == 7 {
        "7"@
    } else if d == 8 {
        "8"@
    } else {
        "9"@
    }
}

/// A number in decimal, without sign or leading zeros.
pub open spec fn decimal_text(n: nat) -> Seq<char>
    decreases n,
{
    if n < 10 {
        digit_text(n as int)
    } else {
        decimal_text(n / 10) + digit_text((n % 10) as int)
    }
}

fn digit(d: u32) -> (text: &'static str)
    requires
        d < 10,
    ensures
        text@ == digit_text(d as int),
{
    if d == 0 {
        "0"
    } else if d == 1 {
        "1"
    } else if d == 2 {
        "2"
    } else if d == 3 {
        "3"
    } else if d == 4 {
        "4"
    } else if d == 5 {
        "5"
    } else if d == 6 {
        "6"
    } else if d == 7 {
        "7"
    } else if d == 8 {
        "8"
    } else {
        "9"
    }
}

/// Writes a key code in decimal.
pub fn decimal(n: u32) -> (text: String)
    ensures
        text@ == decimal_text(n as nat),
    decreases n,
{
    if n < 10 {
        String::from_str(digit(n))
    } else {
        let mut text = decimal(n / 10);
        text.append(digit(n % 10));
        text
    }
}

/// The given JSON values, separated by commas.
pub open spec fn comma_joined(items: Seq<Seq<char>>) -> Seq<char>
    decreases items.len(),
{
    if items.len() == 0 {
        Seq::empty()
    } else if items.len() == 1 {
        items[0]
    } else {
        comma_joined(items.drop_last()) + ","@ + items.last()
    }
}

/// The frame of a `Key` event whose label and modifier names are already
/// JSON literals.
pub open spec fn key_frame(key: Seq<char>, modifiers: Seq<Seq<char>>, code: u32) -> Seq<char> {
    "{\"type\":\"Key\",\"key\":"@ + key + ",\"modifiers\":["@ + comma_joined(modifiers)
        + "],\"code\":"@ + decimal_text(code as nat) + "}"@
}

/// The frame of a `Text` event whose value is already a JSON literal.
pub open spec fn text_frame(value: Seq<char>) -> Seq<char> {
    "{\"type\":\"Text\",\"value\":"@ + value + "}"@
}

/// The frame that goes to the clients for an event: a JSON object whose
/// `type` member names the variant, followed by the variant's fields in the
/// order of their declaration.
pub open spec fn event_frame(event: EventView) -> Seq<char> {
    match event {
        EventView::Key { key, modifiers, code } => key_frame(
            json_quoted(key),
            modifiers.map_values(|name: Seq<char>| json_quoted(name)),
            code,
        ),
        EventView::Text { value } => text_frame(json_quoted(value)),
    }
}

/// Joins JSON values with commas.
pub fn join_with_commas(items: &Vec<String>) -> (joined: String)
    ensures
        joined@ == comma_joined(texts(items@)),
{
    let mut joined = String::new();
    let mut i: usize = 0;
    assert(texts(items@).take(0) =~= Seq::<Seq<char>>::empty());
    while i < items.len()
        invariant
            i <= items.len(),
            joined@ == comma_joined(texts(items@).take(i as int)),
        decreases items.len() - i,
    {
        proof {
            let next = texts(items@).take(i + 1);
            assert(next.drop_last() =~= texts(items@).take(i as int));
            assert(next.last() == items@[i as int]@);
            if i == 0 {
                assert(Seq::<char>::empty() + items@[0]@ =~= items@[0]@);
            }
        }
        if i > 0 {
            joined.append(",");
        }
        joined.append(items[i].as_str());
        i += 1;
    }
    assert(texts(items@).take(i as int) =~= texts(items@));
    joined
}

/// Builds the frame of a `Key` event from the JSON literals of its label and
/// of its modifiers' names.
pub fn build_key_frame(key: &str, modifiers: &Vec<String>, code: u32) -> (frame: String)
    ensures
        frame@ == key_frame(key@, texts(modifiers@), code),
{
    let mut frame = String::from_str("{\"type\":\"Key\",\"key\":");
    frame.append(key);
    frame.append(",\"modifiers\":[");
    frame.append(join_with_commas(modifiers).as_str());
    frame.append("],\"code\":");
    frame.append(decimal(code).as_str());
    frame.append("}");
    frame
}

/// Builds the frame of a `Text` event from the JSON literal of its value.
pub fn build_text_frame(value: &str) -> (frame: String)
    ensures
        frame@ == text_frame(value@),
{
    let mut frame = String::from_str("{\"type\":\"Text\",\"value\":");
    frame.append(value);
    frame.append("}");
    frame
}

/// Quotes each name as a JSON literal.
fn quote_all(names: &Vec<String>) -> (quoted: Vec<String>)
    ensures
        texts(quoted@) == texts(names@).map_values(|name: Seq<char>| json_quoted(name)),
{
    let mut quoted: Vec<String> = Vec::new();
    let mut i: usize = 0;
    while i < names.len()
        invariant
            i <= names.len(),
            quoted@.len() == i,
            forall|k: int| 0 <= k < i ==> (#[trigger] quoted@[k])@ == json_quoted(names@[k]@),
        decreases names.len() - i,
    {
        quoted.push(quote(names[i].as_str()));
        i += 1;
    }
    assert(texts(quoted@) =~= texts(names@).map_values(|name: Seq<char>| json_quoted(name)));
    quoted
}

/// Serialises an event into the frame that goes to the clients.
pub fn encode_event(event: &Event) -> (frame: String)
    ensures
        frame@ == event_frame(event@),
{
    match event {
        Event::Key { key, modifiers, code } => {
            let quoted_key = quote(key.as_str());
            let quoted_modifiers = quote_all(modifiers);
            build_key_frame(quoted_key.as_str(), &quoted_modifiers, *code)
        },
        Event::Text { value } => {
            let quoted_value = quote(value.as_str());
            build_text_frame(quoted_value.as_str())
        },
    }
}

/// The request that a JSON object with the given `type` and `enabled`
/// members stands for: a grab request where `type` is the string `Grab` and
/// `enabled` a boolean, and none otherwise.
pub open spec fn request_of(tag: Option<Seq<char>>, enabled: Option<bool>) -> Option<Request> {
    match (tag, enabled) {
        (Some(t), Some(e)) => if t == "Grab"@ {
            Some(Request::Grab { enabled: e })
        } else {
            None
        },
        _ => None,
    }
}

/// The request that a client's text stands for, if any.
pub open spec fn parsed_request(text: Seq<char>) -> Option<Request> {
    request_of(json_string_member(text, "type"@), json_bool_member(text, "enabled"@))
}

/// Reads a request off the `type` and `enabled` members of a client's JSON
/// object.
pub fn request_from_members(tag: Option<String>, enabled: Option<bool>) -> (request: Option<
    Request,
>)
    ensures
        request == request_of(text_of(tag), enabled),
{
    match (tag, enabled) {
        (Some(t), Some(e)) => {
            let grab = String::from_str("Grab");
            if t == grab {
                Some(Request::Grab { enabled: e })
            } else {
                None
            }
        },
        _ => None,
    }
}

/// Parses a client's text as a request. Text that is no JSON object, or whose
/// object is no request, gives `None`.
pub fn parse_request(text: &str) -> (request: Option<Request>)
    ensures
        request == parsed_request(text@),
{
    let (tag, enabled) = read_members(text, "type", "enabled");
    request_from_members(tag, enabled)
}

} // verus!
