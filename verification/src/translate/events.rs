//! Upstream events, one JSON object on each line.

use vstd::prelude::*;
use crate::json;
use crate::json::{json_string, parse_json, Json, JsonV};
use crate::text;
use crate::text::{same, starts_with, trim};
use crate::util;
use crate::util::{string_or_empty, truthy};

verus! {

/// The event on a line: none where the line is blank, an end mark, no JSON or without a type.
/// `comments` says whether a line that begins with a colon is a comment.
pub open spec fn event_in(line: Seq<char>, comments: bool) -> Option<JsonV> {
    let t = text::trimmed(line);
    if t.len() == 0 || t == "[DONE]"@ || (comments && text::has_prefix(t, ":"@)) {
        None
    } else {
        match json::json_parsed(t) {
            Some(e) => match e.get_str("type"@) {
                Some(_) => Some(e),
                None => None,
            },
            None => None,
        }
    }
}

pub fn read_event(line: &str, comments: bool) -> (r: Option<Json>)
    ensures
        json::owned_json(r) == event_in(line@, comments),
{
    let t = trim(line);
    let s = t.as_str();
    if s.is_empty() || same(s, "[DONE]") || (comments && starts_with(s, ":")) {
        return None;
    }
    match parse_json(s) {
        Some(e) => if e.get_str("type").is_some() {
            Some(e)
        } else {
            None
        },
        None => None,
    }
}

/// The type of an event.
pub open spec fn type_of(e: JsonV) -> Seq<char> {
    e.str_or("type"@, ""@)
}

/// The text of an event.
pub open spec fn event_text_of(e: JsonV) -> Seq<char> {
    util::plain_text(e.get("text"@))
}

pub(crate) fn event_text(e: &Json) -> (r: String)
    ensures
        r@ == event_text_of(e@),
{
    string_or_empty(e.get("text"))
}

/// The text of a text event: in its member `text`, else in its member `delta`.
pub open spec fn delta_text_of(e: JsonV) -> Seq<char> {
    if event_text_of(e).len() > 0 {
        event_text_of(e)
    } else {
        e.str_or("delta"@, ""@)
    }
}

pub(crate) fn delta_text(e: &Json) -> (r: String)
    ensures
        r@ == delta_text_of(e@),
{
    let t = event_text(e);
    if t.as_str().is_empty() {
        e.str_or("delta", "").to_owned()
    } else {
        t
    }
}

/// The arguments of a tool call: a text as it stands, else the input as JSON, where an input that
/// does not count as true is an empty object.
pub open spec fn arguments_of(e: JsonV) -> Seq<char> {
    match e.get("input"@) {
        Some(JsonV::Str(s)) => s,
        Some(j) => if util::is_truthy(j) {
            json::json_text(j)
        } else {
            "{}"@
        },
        None => "{}"@,
    }
}

pub(crate) fn tool_arguments(e: &Json) -> (r: String)
    ensures
        r@ == arguments_of(e@),
{
    match e.get("input") {
        Some(j) => match j {
            Json::Str(s) => s.clone(),
            _ => if truthy(j) {
                json_string(j)
            } else {
                "{}".to_owned()
            },
        },
        None => "{}".to_owned(),
    }
}

/// The usage report of a finish event: its total, else that of its step.
pub open spec fn usage_in(e: JsonV) -> Option<JsonV> {
    match e.get_object("totalUsage"@) {
        Some(u) => Some(u),
        None => e.get_object("usage"@),
    }
}

pub(crate) fn get_usage(e: &Json) -> (r: Option<&Json>)
    ensures
        json::opt_json(r) == usage_in(e@),
{
    match e.get_object("totalUsage") {
        Some(u) => Some(u),
        None => e.get_object("usage"),
    }
}

} // verus!
