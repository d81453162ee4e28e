//! The body of an upstream request, and what else is sent with it.

use vstd::prelude::*;
use crate::config::{Config, ConfigV};
use crate::fingerprint::{DeviceProfile, DeviceProfileV};
use crate::float;
use crate::json;
use crate::json::{copy_opt_json, json_string, no_json, one_json, push_json, Items, Json, JsonV};
use crate::text;
use crate::text::{cat, chars_of, join, no_texts, push_text, same};
use crate::util;
use crate::util::{
    data_url_media_type, date_str_utc, first_truthy, get_truthy, nullish_text, number_double,
    string_or_empty, try_parse_json,
};

verus! {

// ── small pieces ───────────────────────────────────────────────

/// The name under which a tool is known upstream.
pub open spec fn wire_tool_name(name: Seq<char>) -> Seq<char> {
    if name == "bash_output"@ || name == "task_output"@ {
        "shell_output"@
    } else if name == "tool_search"@ {
        "search_tools"@
    } else if name == "read_multiple_files"@ {
        "read_file"@
    } else {
        name
    }
}

fn to_wire_tool_name(name: &str) -> (r: &str)
    ensures
        r@ == wire_tool_name(name@),
{
    if same(name, "bash_output") || same(name, "task_output") {
        "shell_output"
    } else if same(name, "tool_search") {
        "search_tools"
    } else if same(name, "read_multiple_files") {
        "read_file"
    } else {
        name
    }
}

/// The texts of the text parts among content parts.
pub open spec fn text_parts(parts: Seq<JsonV>) -> Seq<Seq<char>>
    decreases parts.len(),
{
    if parts.len() == 0 {
        Seq::empty()
    } else if parts.last().get_str("type"@) == Some("text"@) {
        text_parts(parts.drop_last()).push(util::plain_text(parts.last().get("text"@)))
    } else {
        text_parts(parts.drop_last())
    }
}

/// The output of a tool as one text: of a list of parts, the text parts on lines of their own.
pub open spec fn tool_output_text(content: Option<JsonV>) -> Seq<char> {
    match content {
        Some(JsonV::Array(parts)) => text::joined(text_parts(parts), "\n"@),
        c => util::plain_text(c),
    }
}

fn is_str_member(j: &Json, k: &str, s: &str) -> (r: bool)
    ensures
        r == (j@.get_str(k@) == Some(s@)),
{
    match j.get_str(k) {
        Some(t) => same(t, s),
        None => false,
    }
}

fn to_wire_tool_output_value(content: Option<&Json>) -> (r: String)
    ensures
        r@ == tool_output_text(json::opt_json(content)),
{
    if let Some(c) = content {
        if let Some(parts) = c.as_array() {
            let items = Items::of(Some(parts));
            let ghost all = items@;
            let mut out = no_texts();
            let mut i: usize = 0;
            assert(all.take(0) =~= Seq::<JsonV>::empty());
            while i < items.len()
                invariant
                    i <= all.len(),
                    all == items@,
                    text::texts(out@) == text_parts(all.take(i as int)),
                decreases all.len() - i,
            {
                assert(all.take(i + 1).drop_last() =~= all.take(i as int));
                assert(all.take(i + 1).last() == all[i as int]);
                let p = items.at(i);
                if is_str_member(p, "type", "text") {
                    push_text(&mut out, string_or_empty(p.get("text")));
                }
                i = i + 1;
            }
            assert(all.take(i as int) =~= all);
            return join(&out, "\n");
        }
    }
    string_or_empty(content)
}

pub open spec fn role_of(m: JsonV) -> Seq<char> {
    m.str_or("role"@, ""@)
}

pub open spec fn is_system(m: JsonV) -> bool {
    role_of(m) == "system"@ || role_of(m) == "developer"@
}

fn is_system_message(m: &Json) -> (r: bool)
    ensures
        r == is_system(m@),
{
    let role = m.str_or("role", "");
    same(role, "system") || same(role, "developer")
}

pub open spec fn text_part(t: Seq<char>) -> JsonV {
    JsonV::obj().with("type"@, JsonV::Str("text"@)).with("text"@, JsonV::Str(t))
}

pub(crate) fn make_text_part(t: &str) -> (r: Json)
    ensures
        r@ == text_part(t@),
{
    Json::obj().with_str("type", "text").with_str("text", t)
}

/// The cache breakpoint of a part.
pub open spec fn cache_mark(part: JsonV) -> Option<JsonV> {
    part.get_nonnull("cache_control"@)
}

// ── the system prompt ──────────────────────────────────────────

/// The blocks for the content parts of a system message; a part without text and without a cache
/// breakpoint gives none.
pub open spec fn part_blocks(parts: Seq<JsonV>) -> Seq<JsonV>
    decreases parts.len(),
{
    if parts.len() == 0 {
        Seq::empty()
    } else {
        let c = parts.last();
        let before = part_blocks(parts.drop_last());
        if util::part_text(c).len() == 0 && cache_mark(c) is None {
            before
        } else {
            before.push(text_part(util::part_text(c)).with_some("cache_control"@, cache_mark(c)))
        }
    }
}

/// The blocks for a system message.
pub open spec fn message_blocks(m: JsonV) -> Seq<JsonV> {
    match m.get("content"@) {
        Some(JsonV::Array(parts)) => part_blocks(parts),
        Some(JsonV::Str(s)) => if s.len() > 0 {
            seq![text_part(s)]
        } else {
            Seq::empty()
        },
        Some(JsonV::Null) => Seq::empty(),
        None => Seq::empty(),
        Some(other) => seq![text_part(json::json_text(other))],
    }
}

/// The blocks for all system messages, in order.
pub open spec fn raw_system_blocks(messages: Seq<JsonV>) -> Seq<JsonV>
    decreases messages.len(),
{
    if messages.len() == 0 {
        Seq::empty()
    } else if is_system(messages.last()) {
        raw_system_blocks(messages.drop_last()) + message_blocks(messages.last())
    } else {
        raw_system_blocks(messages.drop_last())
    }
}

/// A block with a newline behind its text.
pub open spec fn with_newline(block: JsonV) -> JsonV {
    match block.get_str("text"@) {
        Some(s) => block.with("text"@, JsonV::Str(s + "\n"@)),
        None => block,
    }
}

/// All blocks but the last with a newline behind their text.
pub open spec fn with_newlines(blocks: Seq<JsonV>) -> Seq<JsonV> {
    Seq::new(
        blocks.len(),
        |i: int|
            if i < blocks.len() - 1 {
                with_newline(blocks[i])
            } else {
                blocks[i]
            },
    )
}

fn push_part_blocks(out: &mut Vec<Json>, parts: &Vec<Json>)
    ensures
        json::models(final(out)@) == json::models(old(out)@) + part_blocks(json::models(parts@)),
{
    let items = Items::of(Some(parts));
    let ghost all = items@;
    let ghost start = json::models(out@);
    let mut i: usize = 0;
    assert(all.take(0) =~= Seq::<JsonV>::empty());
    assert(start + part_blocks(all.take(0)) =~= start);
    while i < items.len()
        invariant
            i <= all.len(),
            all == items@,
            json::models(out@) == start + part_blocks(all.take(i as int)),
        decreases all.len() - i,
    {
        assert(all.take(i + 1).drop_last() =~= all.take(i as int));
        assert(all.take(i + 1).last() == all[i as int]);
        let c = items.at(i);
        let t = nullish_text(c);
        let mark = c.get_nonnull("cache_control");
        let ghost before = json::models(out@);
        if !t.as_str().is_empty() || mark.is_some() {
            push_json(out, make_text_part(t.as_str()).with_some("cache_control", copy_opt_json(mark)));
        }
        assert(json::models(out@) =~= start + part_blocks(all.take(i + 1)));
        i = i + 1;
    }
    assert(all.take(i as int) =~= all);
}

fn push_message_blocks(out: &mut Vec<Json>, m: &Json)
    ensures
        json::models(final(out)@) == json::models(old(out)@) + message_blocks(m@),
{
    let ghost start = json::models(out@);
    match m.get("content") {
        Some(c) => match c {
            Json::Array(parts) => {
                assert(c@->Array_0 =~= json::models(parts@));
                push_part_blocks(out, parts);
            },
            Json::Str(s) => {
                if !s.as_str().is_empty() {
                    push_json(out, make_text_part(s.as_str()));
                }
                assert(json::models(out@) =~= start + message_blocks(m@));
            },
            Json::Null => {
                assert(json::models(out@) =~= start + message_blocks(m@));
            },
            _ => {
                push_json(out, make_text_part(json_string(c).as_str()));
                assert(json::models(out@) =~= start + message_blocks(m@));
            },
        },
        None => {
            assert(json::models(out@) =~= start + message_blocks(m@));
        },
    }
}

fn collect_system_blocks(messages: &Items) -> (r: Vec<Json>)
    ensures
        json::models(r@) == raw_system_blocks(messages@),
{
    let ghost all = messages@;
    let mut out = no_json();
    let mut i: usize = 0;
    assert(all.take(0) =~= Seq::<JsonV>::empty());
    while i < messages.len()
        invariant
            i <= all.len(),
            all == messages@,
            json::models(out@) == raw_system_blocks(all.take(i as int)),
        decreases all.len() - i,
    {
        assert(all.take(i + 1).drop_last() =~= all.take(i as int));
        assert(all.take(i + 1).last() == all[i as int]);
        let m = messages.at(i);
        if is_system_message(m) {
            push_message_blocks(&mut out, m);
        }
        i = i + 1;
    }
    assert(all.take(i as int) =~= all);
    out
}

fn add_newline(block: Json) -> (r: Json)
    ensures
        r@ == with_newline(block@),
{
    let t = match block.get_str("text") {
        Some(s) => Some(cat(s, "\n")),
        None => None,
    };
    match t {
        Some(t) => block.with("text", Json::Str(t)),
        None => block,
    }
}

fn add_newlines(blocks: &Vec<Json>) -> (r: Vec<Json>)
    ensures
        json::models(r@) == with_newlines(json::models(blocks@)),
{
    let ghost all = with_newlines(json::models(blocks@));
    let mut out = no_json();
    let mut i: usize = 0;
    let total: usize = blocks.len();
    assert(all.take(0) =~= Seq::<JsonV>::empty());
    while i < total
        invariant
            i <= total == blocks@.len(),
            all == with_newlines(json::models(blocks@)),
            json::models(out@) == all.take(i as int),
        decreases total - i,
    {
        let b = blocks[i].clone();
        if total - i > 1 {
            push_json(&mut out, add_newline(b));
        } else {
            push_json(&mut out, b);
        }
        i = i + 1;
        assert(all.take(i as int) =~= all.take(i - 1).push(all[i - 1]));
    }
    assert(all.take(i as int) =~= all);
    out
}

// ── tool names ─────────────────────────────────────────────────

/// The identifiers and names in a list of tool calls.
pub open spec fn call_names(calls: Seq<JsonV>) -> Seq<(Seq<char>, Seq<char>)>
    decreases calls.len(),
{
    if calls.len() == 0 {
        Seq::empty()
    } else {
        let before = call_names(calls.drop_last());
        match calls.last().get_str("id"@) {
            Some(id) => before.push((id, call_name(calls.last()))),
            None => before,
        }
    }
}

/// The name of the function that a tool call names.
pub open spec fn call_name(call: JsonV) -> Seq<char> {
    match json::str_in(call.get2("function"@, "name"@)) {
        Some(n) => n,
        None => ""@,
    }
}

/// The identifiers and names of all tool calls in the assistant's messages.
pub open spec fn tool_names(messages: Seq<JsonV>) -> Seq<(Seq<char>, Seq<char>)>
    decreases messages.len(),
{
    if messages.len() == 0 {
        Seq::empty()
    } else if role_of(messages.last()) == "assistant"@ {
        tool_names(messages.drop_last()) + call_names(messages.last().items("tool_calls"@))
    } else {
        tool_names(messages.drop_last())
    }
}

/// The name that goes with an identifier: where it occurs more than once, the last.
pub open spec fn name_for(names: Seq<(Seq<char>, Seq<char>)>, id: Seq<char>) -> Option<Seq<char>>
    decreases names.len(),
{
    if names.len() == 0 {
        None
    } else if names.last().0 == id {
        Some(names.last().1)
    } else {
        name_for(names.drop_last(), id)
    }
}

pub open spec fn pairs_of(v: Seq<(String, String)>) -> Seq<(Seq<char>, Seq<char>)> {
    v.map_values(|e: (String, String)| (e.0@, e.1@))
}

/// Names by identifiers, in the order in which they were added.
pub struct NameTable {
    entries: Vec<(String, String)>,
}

impl NameTable {
    pub closed spec fn view(&self) -> Seq<(Seq<char>, Seq<char>)> {
        pairs_of(self.entries@)
    }

    pub fn new() -> (r: Self)
        ensures
            r@ == Seq::<(Seq<char>, Seq<char>)>::empty(),
    {
        let r = NameTable { entries: Vec::new() };
        assert(r@ =~= Seq::<(Seq<char>, Seq<char>)>::empty());
        r
    }

    pub fn add(&mut self, id: &str, name: &str)
        ensures
            final(self)@ == old(self)@.push((id@, name@)),
    {
        self.entries.push((id.to_owned(), name.to_owned()));
        assert(self@ =~= old(self)@.push((id@, name@)));
    }

    pub fn get(&self, id: &str) -> (r: Option<&str>)
        ensures
            text::str_opt(r) == name_for(self@, id@),
    {
        let ghost all = self@;
        let mut n: usize = self.entries.len();
        assert(all.take(n as int) =~= all);
        while n > 0
            invariant
                n <= self.entries@.len(),
                all == self@,
                name_for(all.take(n as int), id@) == name_for(all, id@),
            decreases n,
        {
            assert(all.take(n as int).last() == all[n - 1]);
            if same(self.entries[n - 1].0.as_str(), id) {
                return Some(self.entries[n - 1].1.as_str());
            }
            assert(all.take(n as int).drop_last() =~= all.take(n - 1));
            n = n - 1;
        }
        None
    }
}

pub(crate) fn name_of_call(call: &Json) -> (r: &str)
    ensures
        r@ == call_name(call@),
{
    match call.get2("function", "name") {
        Some(n) => match n.as_str() {
            Some(s) => s,
            None => "",
        },
        None => "",
    }
}

fn add_call_names(names: &mut NameTable, calls: &Items)
    ensures
        final(names)@ == old(names)@ + call_names(calls@),
{
    let ghost all = calls@;
    let ghost start = names@;
    let mut i: usize = 0;
    assert(all.take(0) =~= Seq::<JsonV>::empty());
    assert(start + call_names(all.take(0)) =~= start);
    while i < calls.len()
        invariant
            i <= all.len(),
            all == calls@,
            names@ == start + call_names(all.take(i as int)),
        decreases all.len() - i,
    {
        assert(all.take(i + 1).drop_last() =~= all.take(i as int));
        assert(all.take(i + 1).last() == all[i as int]);
        let call = calls.at(i);
        if let Some(id) = call.get_str("id") {
            names.add(id, name_of_call(call));
        }
        assert(names@ =~= start + call_names(all.take(i + 1)));
        i = i + 1;
    }
    assert(all.take(i as int) =~= all);
}

fn collect_tool_names(messages: &Items) -> (r: NameTable)
    ensures
        r@ == tool_names(messages@),
{
    let ghost all = messages@;
    let mut names = NameTable::new();
    let mut i: usize = 0;
    assert(all.take(0) =~= Seq::<JsonV>::empty());
    while i < messages.len()
        invariant
            i <= all.len(),
            all == messages@,
            names@ == tool_names(all.take(i as int)),
        decreases all.len() - i,
    {
        assert(all.take(i + 1).drop_last() =~= all.take(i as int));
        assert(all.take(i + 1).last() == all[i as int]);
        let m = messages.at(i);
        if same(m.str_or("role", ""), "assistant") {
            add_call_names(&mut names, &m.items("tool_calls"));
        }
        i = i + 1;
    }
    assert(all.take(i as int) =~= all);
    names
}

// ── messages ───────────────────────────────────────────────────

/// A content part of a user: an image is put in the upstream form, the rest stays as it is.
pub open spec fn user_part(part: JsonV) -> JsonV {
    if part.get_str("type"@) == Some("image_url"@) {
        let url = match json::str_in(part.get2("image_url"@, "url"@)) {
            Some(u) => u,
            None => ""@,
        };
        JsonV::obj().with("type"@, JsonV::Str("image"@)).with("image"@, JsonV::Str(url)).with_some(
            "mimeType"@,
            match util::media_type_of(url) {
                Some(t) => Some(JsonV::Str(t)),
                None => None,
            },
        )
    } else {
        part
    }
}

pub open spec fn message_json(role: Seq<char>, content: Seq<JsonV>) -> JsonV {
    JsonV::obj().with("role"@, JsonV::Str(role)).with("content"@, JsonV::Array(content))
}

fn make_message(role: &str, content: Vec<Json>) -> (r: Json)
    ensures
        r@ == message_json(role@, json::models(content@)),
{
    Json::obj().with_str("role", role).with("content", Json::array(content))
}

pub open spec fn user_content(content: Option<JsonV>) -> Seq<JsonV> {
    match content {
        Some(JsonV::Array(parts)) => parts.map_values(|p: JsonV| user_part(p)),
        c => seq![text_part(util::plain_text(c))],
    }
}

fn make_user_part(part: &Json) -> (r: Json)
    ensures
        r@ == user_part(part@),
{
    if is_str_member(part, "type", "image_url") {
        let url = match part.get2("image_url", "url") {
            Some(u) => match u.as_str() {
                Some(s) => s,
                None => "",
            },
            None => "",
        };
        let mime = match data_url_media_type(url) {
            Some(t) => Some(Json::Str(t)),
            None => None,
        };
        Json::obj().with_str("type", "image").with_str("image", url).with_some("mimeType", mime)
    } else {
        part.clone()
    }
}

fn make_user_content(content: Option<&Json>) -> (r: Vec<Json>)
    ensures
        json::models(r@) == user_content(json::opt_json(content)),
{
    if let Some(c) = content {
        if let Some(parts) = c.as_array() {
            let items = Items::of(Some(parts));
            let ghost all = items@.map_values(|p: JsonV| user_part(p));
            let mut out = no_json();
            let mut i: usize = 0;
            assert(all.take(0) =~= Seq::<JsonV>::empty());
            while i < items.len()
                invariant
                    i <= items@.len(),
                    all == items@.map_values(|p: JsonV| user_part(p)),
                    json::models(out@) == all.take(i as int),
                decreases items@.len() - i,
            {
                push_json(&mut out, make_user_part(items.at(i)));
                i = i + 1;
                assert(all.take(i as int) =~= all.take(i - 1).push(all[i - 1]));
            }
            assert(all.take(i as int) =~= all);
            return out;
        }
    }
    one_json(make_text_part(string_or_empty(content).as_str()))
}

/// The text and reasoning parts among an assistant's content parts; the reasoning is left out
/// where the message has it in a member of its own.
pub open spec fn kept_parts(parts: Seq<JsonV>, with_reasoning: bool) -> Seq<JsonV>
    decreases parts.len(),
{
    if parts.len() == 0 {
        Seq::empty()
    } else {
        let p = parts.last();
        let before = kept_parts(parts.drop_last(), with_reasoning);
        if p.get_str("type"@) == Some("text"@) || (p.get_str("type"@) == Some("reasoning"@) && with_reasoning) {
            before.push(p)
        } else {
            before
        }
    }
}

/// The input of a tool call.
pub open spec fn call_input(call: JsonV) -> JsonV {
    match call.get2("function"@, "arguments"@) {
        Some(JsonV::Str(s)) => util::parsed_or_empty(s),
        Some(JsonV::Null) => JsonV::obj(),
        None => JsonV::obj(),
        Some(other) => other,
    }
}

pub open spec fn call_part(call: JsonV) -> JsonV {
    JsonV::obj().with("type"@, JsonV::Str("tool-call"@)).with_some(
        "toolCallId"@,
        util::truthy_member(call, "id"@),
    ).with("toolName"@, JsonV::Str(call_name(call))).with("input"@, call_input(call))
}

/// The parts of an assistant's message: its reasoning, its text, its tool calls.
pub open spec fn assistant_content(msg: JsonV) -> Seq<JsonV> {
    let reasoning = util::truthy_member(msg, "reasoning_content"@);
    let first = match reasoning {
        Some(rc) => seq![JsonV::obj().with("type"@, JsonV::Str("reasoning"@)).with("text"@, rc)],
        None => Seq::empty(),
    };
    let middle = match msg.get("content"@) {
        Some(JsonV::Str(s)) => if s.len() > 0 {
            seq![text_part(s)]
        } else {
            Seq::empty()
        },
        Some(JsonV::Array(parts)) => kept_parts(parts, reasoning is None),
        _ => Seq::empty(),
    };
    first + middle + msg.items("tool_calls"@).map_values(|c: JsonV| call_part(c))
}

fn push_kept_parts(out: &mut Vec<Json>, parts: &Vec<Json>, with_reasoning: bool)
    ensures
        json::models(final(out)@) == json::models(old(out)@) + kept_parts(json::models(parts@), with_reasoning),
{
    let items = Items::of(Some(parts));
    let ghost all = items@;
    let ghost start = json::models(out@);
    let mut i: usize = 0;
    assert(all.take(0) =~= Seq::<JsonV>::empty());
    assert(start + kept_parts(all.take(0), with_reasoning) =~= start);
    while i < items.len()
        invariant
            i <= all.len(),
            all == items@,
            json::models(out@) == start + kept_parts(all.take(i as int), with_reasoning),
        decreases all.len() - i,
    {
        assert(all.take(i + 1).drop_last() =~= all.take(i as int));
        assert(all.take(i + 1).last() == all[i as int]);
        let p = items.at(i);
        if is_str_member(p, "type", "text") || (is_str_member(p, "type", "reasoning") && with_reasoning) {
            push_json(out, p.clone());
        }
        assert(json::models(out@) =~= start + kept_parts(all.take(i + 1), with_reasoning));
        i = i + 1;
    }
    assert(all.take(i as int) =~= all);
}

fn make_call_part(call: &Json) -> (r: Json)
    ensures
        r@ == call_part(call@),
{
    let input = match call.get2("function", "arguments") {
        Some(a) => match a {
            Json::Str(s) => try_parse_json(s.as_str()),
            Json::Null => Json::obj(),
            _ => a.clone(),
        },
        None => Json::obj(),
    };
    Json::obj().with_str("type", "tool-call").with_some("toolCallId", copy_opt_json(get_truthy(call, "id"))).with_str(
        "toolName",
        name_of_call(call),
    ).with("input", input)
}

fn push_call_parts(out: &mut Vec<Json>, calls: &Items)
    ensures
        json::models(final(out)@) == json::models(old(out)@) + calls@.map_values(|c: JsonV| call_part(c)),
{
    let ghost all = calls@.map_values(|c: JsonV| call_part(c));
    let ghost start = json::models(out@);
    let mut i: usize = 0;
    assert(start + all.take(0) =~= start);
    while i < calls.len()
        invariant
            i <= calls@.len(),
            all == calls@.map_values(|c: JsonV| call_part(c)),
            json::models(out@) == start + all.take(i as int),
        decreases calls@.len() - i,
    {
        push_json(out, make_call_part(calls.at(i)));
        i = i + 1;
        assert(start + all.take(i as int) =~= (start + all.take(i - 1)).push(all[i - 1]));
    }
    assert(all.take(i as int) =~= all);
}

fn make_assistant_content(msg: &Json) -> (r: Vec<Json>)
    ensures
        json::models(r@) == assistant_content(msg@),
{
    let mut parts = no_json();
    let reasoning = get_truthy(msg, "reasoning_content");
    if let Some(rc) = reasoning {
        push_json(&mut parts, Json::obj().with_str("type", "reasoning").with("text", rc.clone()));
    }
    let ghost first = match util::truthy_member(msg@, "reasoning_content"@) {
        Some(rc) => seq![JsonV::obj().with("type"@, JsonV::Str("reasoning"@)).with("text"@, rc)],
        None => Seq::empty(),
    };
    assert(json::models(parts@) =~= first);
    if let Some(c) = msg.get("content") {
        match c {
            Json::Str(s) => {
                if !s.as_str().is_empty() {
                    push_json(&mut parts, make_text_part(s.as_str()));
                }
            },
            Json::Array(list) => {
                assert(c@->Array_0 =~= json::models(list@));
                push_kept_parts(&mut parts, list, reasoning.is_none());
            },
            _ => {},
        }
    }
    let ghost middle = match msg@.get("content"@) {
        Some(JsonV::Str(s)) => if s.len() > 0 {
            seq![text_part(s)]
        } else {
            Seq::empty()
        },
        Some(JsonV::Array(parts)) => kept_parts(
            parts,
            util::truthy_member(msg@, "reasoning_content"@) is None,
        ),
        _ => Seq::empty(),
    };
    assert(json::models(parts@) =~= first + middle);
    push_call_parts(&mut parts, &msg.items("tool_calls"));
    parts
}

/// The name of the tool whose result a message holds.
pub open spec fn result_name(msg: JsonV, names: Seq<(Seq<char>, Seq<char>)>) -> JsonV {
    let known = match msg.get_str("tool_call_id"@) {
        Some(id) => match name_for(names, id) {
            Some(n) => JsonV::Str(n),
            None => JsonV::Null,
        },
        None => JsonV::Null,
    };
    util::first_truthy_of(seq![known, msg.or_null("name"@)], JsonV::Str(""@))
}

pub open spec fn result_part(msg: JsonV, names: Seq<(Seq<char>, Seq<char>)>) -> JsonV {
    JsonV::obj().with("type"@, JsonV::Str("tool-result"@)).with_some(
        "toolCallId"@,
        util::truthy_member(msg, "tool_call_id"@),
    ).with("toolName"@, result_name(msg, names)).with(
        "output"@,
        JsonV::obj().with("type"@, JsonV::Str("text"@)).with(
            "value"@,
            JsonV::Str(tool_output_text(msg.get("content"@))),
        ),
    )
}

fn make_result_part(msg: &Json, names: &NameTable) -> (r: Json)
    ensures
        r@ == result_part(msg@, names@),
{
    let known = match msg.get_str("tool_call_id") {
        Some(id) => match names.get(id) {
            Some(n) => Json::of_str(n),
            None => Json::Null,
        },
        None => Json::Null,
    };
    let mut candidates = one_json(known);
    push_json(&mut candidates, msg.or_null("name"));
    assert(json::models(candidates@) =~= seq![known@, msg@.or_null("name"@)]);
    let name = first_truthy(candidates.as_slice(), Json::of_str(""));
    let output = Json::obj().with_str("type", "text").with_str(
        "value",
        to_wire_tool_output_value(msg.get("content")).as_str(),
    );
    Json::obj().with_str("type", "tool-result").with_some(
        "toolCallId",
        copy_opt_json(get_truthy(msg, "tool_call_id")),
    ).with("toolName", name).with("output", output)
}

/// A message in the upstream form; one of an unknown role is taken for the user's.
pub open spec fn cc_message(msg: JsonV, names: Seq<(Seq<char>, Seq<char>)>) -> JsonV {
    let role = role_of(msg);
    if role == "user"@ {
        message_json("user"@, user_content(msg.get("content"@)))
    } else if role == "assistant"@ {
        message_json("assistant"@, assistant_content(msg))
    } else if role == "tool"@ {
        message_json("tool"@, seq![result_part(msg, names)])
    } else {
        message_json("user"@, seq![text_part(util::plain_text(msg.get("content"@)))])
    }
}

/// The messages that are no system messages, in the upstream form.
pub open spec fn cc_messages(messages: Seq<JsonV>, names: Seq<(Seq<char>, Seq<char>)>) -> Seq<JsonV>
    decreases messages.len(),
{
    if messages.len() == 0 {
        Seq::empty()
    } else if is_system(messages.last()) {
        cc_messages(messages.drop_last(), names)
    } else {
        cc_messages(messages.drop_last(), names).push(cc_message(messages.last(), names))
    }
}

fn make_cc_message(msg: &Json, names: &NameTable) -> (r: Json)
    ensures
        r@ == cc_message(msg@, names@),
{
    let role = msg.str_or("role", "");
    if same(role, "user") {
        make_message("user", make_user_content(msg.get("content")))
    } else if same(role, "assistant") {
        make_message("assistant", make_assistant_content(msg))
    } else if same(role, "tool") {
        make_message("tool", one_json(make_result_part(msg, names)))
    } else {
        make_message("user", one_json(make_text_part(string_or_empty(msg.get("content")).as_str())))
    }
}

fn make_cc_messages(messages: &Items, names: &NameTable) -> (r: Vec<Json>)
    ensures
        json::models(r@) == cc_messages(messages@, names@),
{
    let ghost all = messages@;
    let mut out = no_json();
    let mut i: usize = 0;
    assert(all.take(0) =~= Seq::<JsonV>::empty());
    while i < messages.len()
        invariant
            i <= all.len(),
            all == messages@,
            json::models(out@) == cc_messages(all.take(i as int), names@),
        decreases all.len() - i,
    {
        assert(all.take(i + 1).drop_last() =~= all.take(i as int));
        assert(all.take(i + 1).last() == all[i as int]);
        let m = messages.at(i);
        if !is_system_message(m) {
            push_json(&mut out, make_cc_message(m, names));
        }
        i = i + 1;
    }
    assert(all.take(i as int) =~= all);
    out
}

// ── cache breakpoints ──────────────────────────────────────────

/// Whether one of the parts has a cache breakpoint.
pub open spec fn any_marked(parts: Seq<JsonV>) -> bool {
    exists|i: int| 0 <= i < parts.len() && cache_mark(#[trigger] parts[i]) is Some
}

/// Whether a part of one of the messages has a cache breakpoint.
pub open spec fn any_message_marked(messages: Seq<JsonV>) -> bool {
    exists|i: int| 0 <= i < messages.len() && any_marked((#[trigger] messages[i]).items("content"@))
}

fn has_mark(parts: &Items) -> (r: bool)
    ensures
        r == any_marked(parts@),
{
    let mut i: usize = 0;
    while i < parts.len()
        invariant
            i <= parts@.len(),
            forall|k: int| 0 <= k < i ==> cache_mark(#[trigger] parts@[k]) is None,
        decreases parts@.len() - i,
    {
        if parts.at(i).get_nonnull("cache_control").is_some() {
            assert(cache_mark(parts@[i as int]) is Some);
            return true;
        }
        i = i + 1;
    }
    false
}

fn has_message_mark(messages: &Items) -> (r: bool)
    ensures
        r == any_message_marked(messages@),
{
    let mut i: usize = 0;
    while i < messages.len()
        invariant
            i <= messages@.len(),
            forall|k: int| 0 <= k < i ==> !any_marked((#[trigger] messages@[k]).items("content"@)),
        decreases messages@.len() - i,
    {
        if has_mark(&messages.at(i).items("content")) {
            assert(any_marked(messages@[i as int].items("content"@)));
            return true;
        }
        i = i + 1;
    }
    false
}

/// The system blocks of a request. Where the request names a cache key and no part has a cache
/// breakpoint, the last block gets one.
pub open spec fn system_blocks(req: JsonV) -> Seq<JsonV> {
    let messages = req.items("messages"@);
    let blocks = with_newlines(raw_system_blocks(messages));
    if util::truthy_member(req, "prompt_cache_key"@) is Some && !any_marked(blocks) && !any_message_marked(
        cc_messages(messages, tool_names(messages)),
    ) && blocks.len() > 0 {
        blocks.update(
            blocks.len() - 1,
            blocks.last().with("cache_control"@, JsonV::obj().with("type"@, JsonV::Str("ephemeral"@))),
        )
    } else {
        blocks
    }
}

fn mark_last(blocks: Vec<Json>) -> (r: Vec<Json>)
    requires
        blocks@.len() > 0,
    ensures
        json::models(r@) == json::models(blocks@).update(
            blocks@.len() - 1,
            json::models(blocks@).last().with("cache_control"@, JsonV::obj().with("type"@, JsonV::Str("ephemeral"@))),
        ),
{
    let mut blocks = blocks;
    let ghost before = json::models(blocks@);
    let n: usize = blocks.len();
    let last = blocks[n - 1].clone().with("cache_control", Json::obj().with_str("type", "ephemeral"));
    assert(last@ == before.last().with("cache_control"@, JsonV::obj().with("type"@, JsonV::Str("ephemeral"@))));
    blocks.set(n - 1, last);
    assert(json::models(blocks@) =~= before.update(n - 1, last@));
    blocks
}

// ── parameters ─────────────────────────────────────────────────

pub open spec fn default_model() -> Seq<char> {
    "deepseek/deepseek-v4-flash"@
}

pub open spec fn model_of(req: JsonV) -> Seq<char> {
    match req.get_nonempty("model"@) {
        Some(m) => m,
        None => default_model(),
    }
}

/// The bound on output tokens: as asked for, 64000 where nothing usable is, and at most 200000.
pub open spec fn max_tokens_of(req: JsonV) -> i64 {
    match util::truthy_member(req, "max_tokens"@) {
        Some(JsonV::Number(n)) => {
            let v = float::float_to_i64(float::float_of_number(n));
            if v < 200_000 {
                v
            } else {
                200_000
            }
        },
        _ => 64_000,
    }
}

fn max_tokens(req: &Json) -> (r: i64)
    ensures
        r == max_tokens_of(req@),
{
    match get_truthy(req, "max_tokens") {
        Some(j) => match j {
            Json::Number(n) => {
                let v: i64 = number_double(n).to_i64();
                if v < 200_000 {
                    v
                } else {
                    200_000
                }
            },
            _ => 64_000,
        },
        None => 64_000,
    }
}

/// A schema for a tool without parameters.
pub open spec fn empty_schema() -> JsonV {
    JsonV::obj().with("type"@, JsonV::Str("object"@)).with("properties"@, JsonV::obj())
}

pub(crate) fn make_empty_schema() -> (r: Json)
    ensures
        r@ == empty_schema(),
{
    Json::obj().with_str("type", "object").with("properties", Json::obj())
}

pub open spec fn opt_or_null(o: Option<JsonV>) -> JsonV {
    match o {
        Some(j) => j,
        None => JsonV::Null,
    }
}

pub(crate) fn copy_or_null(o: Option<&Json>) -> (r: Json)
    ensures
        r@ == opt_or_null(json::opt_json(o)),
{
    match o {
        Some(j) => j.clone(),
        None => Json::Null,
    }
}

/// A member of a tool: of its function, else of the tool itself, else the default.
pub open spec fn tool_member(t: JsonV, in_function: Seq<char>, in_tool: Seq<char>, default: JsonV) -> JsonV {
    util::first_truthy_of(
        seq![opt_or_null(t.get2("function"@, in_function)), opt_or_null(t.get(in_tool))],
        default,
    )
}

fn get_tool_member(t: &Json, in_function: &str, in_tool: &str, default: Json) -> (r: Json)
    ensures
        r@ == tool_member(t@, in_function@, in_tool@, default@),
{
    let mut candidates = one_json(copy_or_null(t.get2("function", in_function)));
    push_json(&mut candidates, copy_or_null(t.get(in_tool)));
    assert(json::models(candidates@) =~= seq![
        opt_or_null(t@.get2("function"@, in_function@)),
        opt_or_null(t@.get(in_tool@)),
    ]);
    first_truthy(candidates.as_slice(), default)
}

pub open spec fn wire_tool(t: JsonV) -> JsonV {
    let name = util::plain_text(Some(tool_member(t, "name"@, "name"@, JsonV::Str(""@))));
    JsonV::obj().with("name"@, JsonV::Str(wire_tool_name(name))).with(
        "description"@,
        tool_member(t, "description"@, "description"@, JsonV::Str(""@)),
    ).with("input_schema"@, tool_member(t, "parameters"@, "input_schema"@, empty_schema()))
}

fn make_wire_tool(t: &Json) -> (r: Json)
    ensures
        r@ == wire_tool(t@),
{
    let name_value = get_tool_member(t, "name", "name", Json::of_str(""));
    let name = string_or_empty(Some(&name_value));
    Json::obj().with_str("name", to_wire_tool_name(name.as_str())).with(
        "description",
        get_tool_member(t, "description", "description", Json::of_str("")),
    ).with("input_schema", get_tool_member(t, "parameters", "input_schema", make_empty_schema()))
}

fn make_wire_tools(tools: &Items) -> (r: Vec<Json>)
    ensures
        json::models(r@) == tools@.map_values(|t: JsonV| wire_tool(t)),
{
    let ghost all = tools@.map_values(|t: JsonV| wire_tool(t));
    let mut out = no_json();
    let mut i: usize = 0;
    assert(all.take(0) =~= Seq::<JsonV>::empty());
    while i < tools.len()
        invariant
            i <= tools@.len(),
            all == tools@.map_values(|t: JsonV| wire_tool(t)),
            json::models(out@) == all.take(i as int),
        decreases tools@.len() - i,
    {
        push_json(&mut out, make_wire_tool(tools.at(i)));
        i = i + 1;
        assert(all.take(i as int) =~= all.take(i - 1).push(all[i - 1]));
    }
    assert(all.take(i as int) =~= all);
    out
}

/// The choice of a tool in the upstream form.
pub open spec fn wire_tool_choice(tc: JsonV) -> JsonV {
    match tc {
        JsonV::Str(s) => JsonV::obj().with(
            "type"@,
            JsonV::Str(
                if s == "none"@ {
                    "none"@
                } else if s == "required"@ {
                    "any"@
                } else {
                    "auto"@
                },
            ),
        ),
        JsonV::Object(_) => if tc.get_str("type"@) == Some("function"@) {
            JsonV::obj().with("type"@, JsonV::Str("tool"@)).with(
                "name"@,
                opt_or_null(tc.get2("function"@, "name"@)),
            )
        } else {
            tc
        },
        _ => tc,
    }
}

fn make_wire_tool_choice(tc: &Json) -> (r: Json)
    ensures
        r@ == wire_tool_choice(tc@),
{
    match tc {
        Json::Str(s) => {
            let t = if same(s.as_str(), "none") {
                "none"
            } else if same(s.as_str(), "required") {
                "any"
            } else {
                "auto"
            };
            Json::obj().with_str("type", t)
        },
        Json::Object(_) => if is_str_member(tc, "type", "function") {
            Json::obj().with_str("type", "tool").with("name", copy_or_null(tc.get2("function", "name")))
        } else {
            tc.clone()
        },
        _ => tc.clone(),
    }
}

/// The system prompt as it is sent: a single space where there is none and a placeholder is
/// wanted, nothing where none is wanted.
pub open spec fn system_param(blocks: Seq<JsonV>, placeholder: bool) -> Option<JsonV> {
    if blocks.len() > 0 {
        Some(JsonV::Array(blocks))
    } else if placeholder {
        Some(JsonV::Array(seq![text_part(" "@)]))
    } else {
        None
    }
}

pub open spec fn params_json(cfg: ConfigV, req: JsonV) -> JsonV {
    let messages = req.items("messages"@);
    JsonV::obj().with("model"@, JsonV::Str(model_of(req))).with(
        "messages"@,
        JsonV::Array(cc_messages(messages, tool_names(messages))),
    ).with("max_tokens"@, json::int_json(max_tokens_of(req) as int)).with("stream"@, JsonV::Bool(true)).with_some(
        "system"@,
        system_param(system_blocks(req), cfg.empty_system_placeholder),
    ).with_some("temperature"@, req.get_nonnull("temperature"@)).with_some(
        "reasoning_effort"@,
        req.get_nonnull("reasoning_effort"@),
    ).with("tools"@, JsonV::Array(req.items("tools"@).map_values(|t: JsonV| wire_tool(t)))).with_some(
        "tool_choice"@,
        match req.get("tool_choice"@) {
            Some(tc) => Some(wire_tool_choice(tc)),
            None => None,
        },
    ).with_some("parallel_tool_calls"@, req.get_nonnull("parallel_tool_calls"@))
}

pub open spec fn config_json(profile: DeviceProfileV, date: Seq<char>) -> JsonV {
    JsonV::obj().with("workingDir"@, JsonV::Str(profile.project_dir)).with("date"@, JsonV::Str(date)).with(
        "environment"@,
        JsonV::Str(profile.platform),
    ).with("structure"@, JsonV::Array(Seq::empty())).with("isGitRepo"@, JsonV::Bool(false)).with(
        "currentBranch"@,
        JsonV::Str(""@),
    ).with("mainBranch"@, JsonV::Str(""@)).with("gitStatus"@, JsonV::Str(""@)).with(
        "recentCommits"@,
        JsonV::Array(Seq::empty()),
    )
}

/// The body of the upstream request for a chat request, on a date.
pub open spec fn cc_request(cfg: ConfigV, profile: DeviceProfileV, req: JsonV, date: Seq<char>) -> JsonV {
    JsonV::obj().with("config"@, config_json(profile, date)).with("memory"@, JsonV::Null).with(
        "taste"@,
        JsonV::Null,
    ).with("skills"@, JsonV::Null).with("permissionMode"@, JsonV::Str("standard"@)).with(
        "mode"@,
        JsonV::Str(
            if cfg.cli_mode.len() == 0 {
                "agent"@
            } else {
                cfg.cli_mode
            },
        ),
    ).with("params"@, params_json(cfg, req))
}

fn make_params(cfg: &Config, req: &Json) -> (r: Json)
    ensures
        r@ == params_json(cfg@, req@),
{
    let messages = req.items("messages");
    let names = collect_tool_names(&messages);
    let cc_msgs = make_cc_messages(&messages, &names);

    let mut blocks = add_newlines(&collect_system_blocks(&messages));
    let marked = has_mark(&Items::of(Some(&blocks))) || has_message_mark(&Items::of(Some(&cc_msgs)));
    assert(json::models(blocks@).len() == blocks@.len());
    if get_truthy(req, "prompt_cache_key").is_some() && !marked && blocks.len() > 0 {
        blocks = mark_last(blocks);
    }
    assert(json::models(blocks@) == system_blocks(req@));
    assert(json::models(blocks@).len() == blocks@.len());
    let system = if blocks.len() > 0 {
        Some(Json::array(blocks))
    } else if cfg.empty_system_placeholder {
        Some(Json::array(one_json(make_text_part(" "))))
    } else {
        None
    };
    let model = match req.get_nonempty("model") {
        Some(m) => m,
        None => "deepseek/deepseek-v4-flash",
    };
    let tool_choice = match req.get("tool_choice") {
        Some(tc) => Some(make_wire_tool_choice(tc)),
        None => None,
    };
    Json::obj().with_str("model", model).with("messages", Json::array(cc_msgs)).with_int(
        "max_tokens",
        max_tokens(req),
    ).with("stream", Json::Bool(true)).with_some("system", system).with_some(
        "temperature",
        copy_opt_json(req.get_nonnull("temperature")),
    ).with_some("reasoning_effort", copy_opt_json(req.get_nonnull("reasoning_effort"))).with(
        "tools",
        Json::array(make_wire_tools(&req.items("tools"))),
    ).with_some("tool_choice", tool_choice).with_some(
        "parallel_tool_calls",
        copy_opt_json(req.get_nonnull("parallel_tool_calls")),
    )
}

/// The body of the upstream request for a chat request, on a date.
pub fn build_cc_request_on(cfg: &Config, profile: &DeviceProfile, openai_req: &Json, date: &str) -> (r: Json)
    ensures
        r@ == cc_request(cfg@, profile@, openai_req@, date@),
{
    let config = Json::obj().with_str("workingDir", profile.project_dir.as_str()).with_str("date", date).with_str(
        "environment",
        profile.platform,
    ).with("structure", Json::array(no_json())).with("isGitRepo", Json::Bool(false)).with_str(
        "currentBranch",
        "",
    ).with_str("mainBranch", "").with_str("gitStatus", "").with("recentCommits", Json::array(no_json()));
    let mode = if cfg.cli_mode.as_str().is_empty() {
        "agent"
    } else {
        cfg.cli_mode.as_str()
    };
    Json::obj().with("config", config).with("memory", Json::Null).with("taste", Json::Null).with(
        "skills",
        Json::Null,
    ).with_str("permissionMode", "standard").with_str("mode", mode).with("params", make_params(cfg, openai_req))
}

/// The body of the upstream request for a chat request, on the current date.
pub fn build_cc_request(cfg: &Config, profile: &DeviceProfile, openai_req: &Json) -> (r: Json)
    ensures
        exists|date: Seq<char>|
            util::date_text(date) && r@ == #[trigger] cc_request(cfg@, profile@, openai_req@, date),
{
    build_cc_request_on(cfg, profile, openai_req, date_str_utc().as_str())
}

// ── the request ────────────────────────────────────────────────

/// The form of a UUID, in either case.
pub open spec fn uuid_form(s: Seq<char>) -> bool {
    s.len() == 36 && forall|i: int|
        0 <= i < 36 ==> if i == 8 || i == 13 || i == 18 || i == 23 {
            #[trigger] s[i] == '-'
        } else {
            hex_char(s[i])
        }
}

pub open spec fn hex_char(c: char) -> bool {
    '0' <= c <= '9' || 'a' <= c <= 'f' || 'A' <= c <= 'F'
}

fn is_uuid(s: &str) -> (r: bool)
    ensures
        r == uuid_form(s@),
{
    let cs = chars_of(s);
    if cs.len() != 36 {
        return false;
    }
    let mut i: usize = 0;
    while i < 36
        invariant
            i <= 36,
            cs@.len() == 36,
            cs@ == s@,
            forall|k: int|
                0 <= k < i ==> if k == 8 || k == 13 || k == 18 || k == 23 {
                    #[trigger] s@[k] == '-'
                } else {
                    hex_char(s@[k])
                },
        decreases 36 - i,
    {
        let c = cs[i];
        let ok = if i == 8 || i == 13 || i == 18 || i == 23 {
            c == '-'
        } else {
            ('0' <= c && c <= '9') || ('a' <= c && c <= 'f') || ('A' <= c && c <= 'F')
        };
        if !ok {
            assert(s@[i as int] == c);
            return false;
        }
        i = i + 1;
    }
    true
}

/// The body of a request with the session as its thread, its members in the order of the wire.
pub open spec fn envelope_with_thread(body: JsonV, session_id: Seq<char>) -> JsonV {
    JsonV::obj().with_some("config"@, body.get("config"@)).with_some("memory"@, body.get("memory"@)).with_some(
        "taste"@,
        body.get("taste"@),
    ).with_some("skills"@, body.get("skills"@)).with_some("permissionMode"@, body.get("permissionMode"@)).with(
        "threadId"@,
        JsonV::Str(session_id),
    ).with_some("mode"@, body.get("mode"@)).with_some("promptCache"@, body.get("promptCache"@)).with_some(
        "params"@,
        body.get("params"@),
    )
}

/// The body as it is sent: the session is the thread where it is a UUID, and else left out.
pub open spec fn envelope(body: JsonV, session_id: Seq<char>) -> JsonV {
    if uuid_form(session_id) {
        envelope_with_thread(body, session_id)
    } else {
        body
    }
}

fn reorder_envelope(body: &Json, session_id: &str) -> (r: Json)
    ensures
        r@ == envelope_with_thread(body@, session_id@),
{
    Json::obj().with_some("config", copy_opt_json(body.get("config"))).with_some(
        "memory",
        copy_opt_json(body.get("memory")),
    ).with_some("taste", copy_opt_json(body.get("taste"))).with_some(
        "skills",
        copy_opt_json(body.get("skills")),
    ).with_some("permissionMode", copy_opt_json(body.get("permissionMode"))).with_str("threadId", session_id).with_some(
        "mode",
        copy_opt_json(body.get("mode")),
    ).with_some("promptCache", copy_opt_json(body.get("promptCache"))).with_some(
        "params",
        copy_opt_json(body.get("params")),
    )
}

/// The version of the wire protocol that requests follow.
pub const CC_PROTOCOL_VERSION: &'static str = "1.53.1";

/// A request to be sent: to where, with which headers, and its body.
#[derive(Debug)]
pub struct Outgoing {
    pub url: String,
    pub headers: Vec<(&'static str, String)>,
    pub body: String,
}

/// The model of a request to be sent.
pub struct OutgoingV {
    pub url: Seq<char>,
    pub headers: Seq<(Seq<char>, Seq<char>)>,
    pub body: Seq<char>,
}

pub open spec fn headers_of(v: Seq<(&'static str, String)>) -> Seq<(Seq<char>, Seq<char>)> {
    v.map_values(|e: (&'static str, String)| (e.0@, e.1@))
}

pub(crate) fn push_header(v: &mut Vec<(&'static str, String)>, name: &'static str, value: String)
    ensures
        headers_of(final(v)@) == headers_of(old(v)@).push((name@, value@)),
{
    v.push((name, value));
    assert(headers_of(v@) =~= headers_of(old(v)@).push((name@, value@)));
}

pub(crate) fn no_headers() -> (r: Vec<(&'static str, String)>)
    ensures
        headers_of(r@) == Seq::<(Seq<char>, Seq<char>)>::empty(),
{
    let r: Vec<(&'static str, String)> = Vec::new();
    assert(headers_of(r@) =~= Seq::<(Seq<char>, Seq<char>)>::empty());
    r
}

impl Outgoing {
    pub open spec fn view(&self) -> OutgoingV {
        OutgoingV { url: self.url@, headers: headers_of(self.headers@), body: self.body@ }
    }
}

/// The headers of a generation request.
pub open spec fn forward_headers(
    project_slug: Seq<char>,
    api_key: Seq<char>,
    session_id: Seq<char>,
    traceparent: Seq<char>,
    zdr: bool,
) -> Seq<(Seq<char>, Seq<char>)> {
    let always = Seq::<(Seq<char>, Seq<char>)>::empty().push(("content-type"@, "application/json"@)).push(
        ("user-agent"@, "cli"@),
    ).push(("x-command-code-version"@, CC_PROTOCOL_VERSION@)).push(("x-cli-environment"@, "production"@)).push(
        ("x-project-slug"@, project_slug),
    ).push(("x-taste-learning"@, "false"@)).push(("x-session-id"@, session_id)).push(
        ("authorization"@, "Bearer "@ + api_key),
    ).push(("traceparent"@, traceparent));
    if zdr {
        always.push(("x-cmd-zdr"@, "1"@))
    } else {
        always
    }
}

/// The generation request for a body.
pub open spec fn forward_request_of(
    cfg: ConfigV,
    body: JsonV,
    api_key: Seq<char>,
    session_id: Seq<char>,
    traceparent: Seq<char>,
    zdr_header: Option<Seq<char>>,
) -> OutgoingV {
    OutgoingV {
        url: crate::config::without_slashes(cfg.api_base) + "/alpha/generate"@,
        headers: forward_headers(
            cfg.project_slug,
            api_key,
            session_id,
            traceparent,
            cfg.zdr || zdr_header == Some("1"@),
        ),
        body: json::json_text(envelope(body, session_id)),
    }
}

/// The generation request for a body, in a session and under a trace. `zdr_header` is the value
/// of the client's header `x-cmd-zdr`.
pub fn forward_request(
    cfg: &Config,
    body: &Json,
    api_key: &str,
    session_id: &str,
    traceparent: &str,
    zdr_header: Option<&str>,
) -> (r: Outgoing)
    ensures
        r@ == forward_request_of(
            cfg@,
            body@,
            api_key@,
            session_id@,
            traceparent@,
            text::str_opt(zdr_header),
        ),
{
    let zdr = cfg.zdr || (match zdr_header {
        Some(h) => same(h, "1"),
        None => false,
    });
    let mut headers = no_headers();
    push_header(&mut headers, "content-type", "application/json".to_owned());
    push_header(&mut headers, "user-agent", "cli".to_owned());
    push_header(&mut headers, "x-command-code-version", CC_PROTOCOL_VERSION.to_owned());
    push_header(&mut headers, "x-cli-environment", "production".to_owned());
    push_header(&mut headers, "x-project-slug", cfg.project_slug.clone());
    push_header(&mut headers, "x-taste-learning", "false".to_owned());
    push_header(&mut headers, "x-session-id", session_id.to_owned());
    push_header(&mut headers, "authorization", cat("Bearer ", api_key));
    push_header(&mut headers, "traceparent", traceparent.to_owned());
    if zdr {
        push_header(&mut headers, "x-cmd-zdr", "1".to_owned());
    }
    let body = if is_uuid(session_id) {
        json_string(&reorder_envelope(body, session_id))
    } else {
        json_string(body)
    };
    Outgoing { url: cat(cfg.api_base_trimmed(), "/alpha/generate"), headers, body }
}

// ── laws ───────────────────────────────────────────────────────

/// How many of the messages are system messages.
pub open spec fn system_count(messages: Seq<JsonV>) -> nat
    decreases messages.len(),
{
    if messages.len() == 0 {
        0
    } else {
        system_count(messages.drop_last()) + (if is_system(messages.last()) {
            1nat
        } else {
            0
        })
    }
}

/// No message is lost or sent twice: each is part of the system prompt or one of the messages.
pub proof fn every_message_is_sent_once(messages: Seq<JsonV>, names: Seq<(Seq<char>, Seq<char>)>)
    ensures
        cc_messages(messages, names).len() + system_count(messages) == messages.len(),
    decreases messages.len(),
{
    if messages.len() > 0 {
        every_message_is_sent_once(messages.drop_last(), names);
    }
}

/// A request never asks for more output than the upstream allows.
pub proof fn output_is_bounded(req: JsonV)
    ensures
        max_tokens_of(req) <= 200_000,
{
}

/// Whether a block has a text.
pub open spec fn has_text(block: JsonV) -> bool {
    block.get_str("text"@) is Some
}

proof fn lemma_text_part(t: Seq<char>, mark: Option<JsonV>)
    ensures
        has_text(text_part(t).with_some("cache_control"@, mark)),
        has_text(text_part(t)),
        text_part(t) is Object,
        text_part(t).with_some("cache_control"@, mark) is Object,
{
    broadcast use json::group_members;

    reveal_strlit("type");
    reveal_strlit("text");
    reveal_strlit("cache_control");
    assert("text"@.len() != "cache_control"@.len());
    assert(text_part(t).get("text"@) == Some(JsonV::Str(t)));
}

proof fn lemma_part_blocks(parts: Seq<JsonV>)
    ensures
        forall|i: int|
            0 <= i < part_blocks(parts).len() ==> has_text(#[trigger] part_blocks(parts)[i]) && part_blocks(parts)[i]
                is Object,
    decreases parts.len(),
{
    if parts.len() > 0 {
        lemma_part_blocks(parts.drop_last());
        let c = parts.last();
        lemma_text_part(util::part_text(c), cache_mark(c));
    }
}

proof fn lemma_raw_blocks(messages: Seq<JsonV>)
    ensures
        forall|i: int|
            0 <= i < raw_system_blocks(messages).len() ==> has_text(#[trigger] raw_system_blocks(messages)[i])
                && raw_system_blocks(messages)[i] is Object,
    decreases messages.len(),
{
    if messages.len() > 0 {
        let front = raw_system_blocks(messages.drop_last());
        lemma_raw_blocks(messages.drop_last());
        let more = message_blocks(messages.last());
        match messages.last().get("content"@) {
            Some(JsonV::Array(parts)) => {
                lemma_part_blocks(parts);
            },
            Some(JsonV::Str(s)) => {
                lemma_text_part(s, None);
            },
            Some(other) => {
                lemma_text_part(json::json_text(other), None);
            },
            None => {},
        }
        assert forall|i: int| 0 <= i < more.len() implies has_text(#[trigger] more[i]) && more[i] is Object by {}
        if is_system(messages.last()) {
            let all = raw_system_blocks(messages);
            assert(all == front + more);
            assert forall|i: int| 0 <= i < all.len() implies has_text(#[trigger] all[i]) && all[i] is Object by {
                if i >= front.len() {
                    assert(all[i] == more[i - front.len()]);
                } else {
                    assert(all[i] == front[i]);
                }
            }
        }
    }
}

/// Every block of the system prompt has a text, and each but the last ends with a newline.
pub proof fn system_blocks_are_lines(req: JsonV)
    ensures
        ({
            let blocks = system_blocks(req);
            &&& blocks.len() == raw_system_blocks(req.items("messages"@)).len()
            &&& forall|i: int| 0 <= i < blocks.len() ==> has_text(#[trigger] blocks[i])
            &&& forall|i: int|
                0 <= i < blocks.len() - 1 ==> (#[trigger] blocks[i]).get_str("text"@)->0.len() > 0 && blocks[i].get_str(
                    "text"@,
                )->0.last() == '\n'
        }),
{
    broadcast use json::group_members;

    let raw = raw_system_blocks(req.items("messages"@));
    lemma_raw_blocks(req.items("messages"@));
    let lined = with_newlines(raw);
    let blocks = system_blocks(req);
    reveal_strlit("\n");
    reveal_strlit("text");
    reveal_strlit("cache_control");
    assert("text"@.len() != "cache_control"@.len());
    assert forall|i: int| 0 <= i < blocks.len() implies has_text(#[trigger] blocks[i]) by {
        assert(has_text(raw[i]));
    }
    assert forall|i: int| 0 <= i < blocks.len() - 1 implies (#[trigger] blocks[i]).get_str("text"@)->0.len() > 0
        && blocks[i].get_str("text"@)->0.last() == '\n' by {
        assert(has_text(raw[i]));
        assert(blocks[i] == lined[i]);
        let s = raw[i].get_str("text"@)->0;
        assert(lined[i] == raw[i].with("text"@, JsonV::Str(s + "\n"@)));
    }
}

/// Where a placeholder is wanted, the upstream always gets a system prompt.
pub proof fn placeholder_fills_in(blocks: Seq<JsonV>)
    ensures
        system_param(blocks, true) matches Some(JsonV::Array(sent)) && sent.len() > 0,
        system_param(blocks, false) is Some <==> blocks.len() > 0,
{
}

/// The names of the members of an object, in order.
pub open spec fn member_names(j: JsonV) -> Seq<Seq<char>> {
    match j {
        JsonV::Object(es) => es.map_values(|e: (Seq<char>, JsonV)| e.0),
        _ => Seq::empty(),
    }
}

proof fn lemma_names_push(j: JsonV, k: Seq<char>, v: JsonV)
    requires
        j is Object,
        j.get(k) is None,
    ensures
        member_names(j.with(k, v)) == member_names(j).push(k),
{
    if let JsonV::Object(es) = j {
        reveal(json::put);
        assert(member_names(j.with(k, v)) =~= member_names(j).push(k));
    }
}

/// The members of what is sent stand in the order of the wire, and the session is among them, as
/// the thread, exactly where it has the form of a UUID.
pub proof fn envelope_has_its_order(
    cfg: ConfigV,
    profile: DeviceProfileV,
    req: JsonV,
    date: Seq<char>,
    session_id: Seq<char>,
)
    ensures
        ({
            let sent = envelope(cc_request(cfg, profile, req, date), session_id);
            &&& uuid_form(session_id) ==> member_names(sent) == seq![
                "config"@,
                "memory"@,
                "taste"@,
                "skills"@,
                "permissionMode"@,
                "threadId"@,
                "mode"@,
                "params"@,
            ] && sent.get("threadId"@) == Some(JsonV::Str(session_id))
            &&& !uuid_form(session_id) ==> member_names(sent) == seq![
                "config"@,
                "memory"@,
                "taste"@,
                "skills"@,
                "permissionMode"@,
                "mode"@,
                "params"@,
            ] && sent.get("threadId"@) is None
        }),
{
    broadcast use json::group_members;

    reveal_strlit("config");
    reveal_strlit("memory");
    reveal_strlit("taste");
    reveal_strlit("skills");
    reveal_strlit("permissionMode");
    reveal_strlit("threadId");
    reveal_strlit("mode");
    reveal_strlit("promptCache");
    reveal_strlit("params");
    assert("config"@[0] == 'c');
    assert("memory"@[0] == 'm');
    assert("skills"@[0] == 's');
    assert("params"@[0] == 'p');
    assert("taste"@.len() == 5 && "mode"@.len() == 4 && "threadId"@.len() == 8);
    assert("permissionMode"@.len() == 14 && "promptCache"@.len() == 11);
    let mode = JsonV::Str(
        if cfg.cli_mode.len() == 0 {
            "agent"@
        } else {
            cfg.cli_mode
        },
    );
    let e = JsonV::obj();
    let a = e.with("config"@, config_json(profile, date));
    let b = a.with("memory"@, JsonV::Null);
    let c = b.with("taste"@, JsonV::Null);
    let d = c.with("skills"@, JsonV::Null);
    let f = d.with("permissionMode"@, JsonV::Str("standard"@));
    assert(member_names(e) =~= Seq::<Seq<char>>::empty());
    lemma_names_push(e, "config"@, config_json(profile, date));
    lemma_names_push(a, "memory"@, JsonV::Null);
    lemma_names_push(b, "taste"@, JsonV::Null);
    lemma_names_push(c, "skills"@, JsonV::Null);
    lemma_names_push(d, "permissionMode"@, JsonV::Str("standard"@));
    let plain = f.with("mode"@, mode).with("params"@, params_json(cfg, req));
    lemma_names_push(f, "mode"@, mode);
    lemma_names_push(f.with("mode"@, mode), "params"@, params_json(cfg, req));
    assert(plain == cc_request(cfg, profile, req, date));
    assert(plain.get("threadId"@) is None);
    if uuid_form(session_id) {
        assert(plain.get("config"@) == Some(config_json(profile, date)));
        assert(plain.get("memory"@) == Some(JsonV::Null));
        assert(plain.get("taste"@) == Some(JsonV::Null));
        assert(plain.get("skills"@) == Some(JsonV::Null));
        assert(plain.get("permissionMode"@) == Some(JsonV::Str("standard"@)));
        assert(plain.get("mode"@) == Some(mode));
        assert(plain.get("promptCache"@) is None);
        assert(plain.get("params"@) == Some(params_json(cfg, req)));
        let t = f.with("threadId"@, JsonV::Str(session_id));
        lemma_names_push(f, "threadId"@, JsonV::Str(session_id));
        lemma_names_push(t, "mode"@, mode);
        lemma_names_push(t.with("mode"@, mode), "params"@, params_json(cfg, req));
        let sent = t.with("mode"@, mode).with("params"@, params_json(cfg, req));
        assert(envelope(plain, session_id) == sent);
        assert(member_names(sent) =~= seq![
            "config"@,
            "memory"@,
            "taste"@,
            "skills"@,
            "permissionMode"@,
            "threadId"@,
            "mode"@,
            "params"@,
        ]);
        assert(t.with("mode"@, mode).get("threadId"@) == Some(JsonV::Str(session_id)));
    } else {
        assert(member_names(plain) =~= seq![
            "config"@,
            "memory"@,
            "taste"@,
            "skills"@,
            "permissionMode"@,
            "mode"@,
            "params"@,
        ]);
    }
}

/// A session with a random identifier is always told as the thread.
pub proof fn random_sessions_are_threads(uuid: Seq<char>)
    requires
        util::uuid_text(uuid),
    ensures
        uuid_form(uuid),
{
    assert forall|i: int| 0 <= i < 36 implies if i == 8 || i == 13 || i == 18 || i == 23 {
        #[trigger] uuid[i] == '-'
    } else {
        hex_char(uuid[i])
    } by {
        assert(util::is_lower_hex(uuid[i]) || uuid[i] == '-');
    }
}

/// The upstream is always asked for a stream, whatever the client wants.
pub proof fn upstream_always_streams(cfg: ConfigV, profile: DeviceProfileV, req: JsonV, date: Seq<char>)
    ensures
        cc_request(cfg, profile, req, date).get2("params"@, "stream"@) == Some(JsonV::Bool(true)),
        cc_request(cfg, profile, req, date).get2("params"@, "model"@) == Some(JsonV::Str(model_of(req))),
{
    broadcast use json::group_members;

    reveal_strlit("model");
    reveal_strlit("messages");
    reveal_strlit("max_tokens");
    reveal_strlit("stream");
    reveal_strlit("system");
    reveal_strlit("temperature");
    reveal_strlit("reasoning_effort");
    reveal_strlit("tools");
    reveal_strlit("tool_choice");
    reveal_strlit("parallel_tool_calls");
    assert("stream"@[1] == 't' && "system"@[1] == 'y');
    assert("model"@[0] == 'm' && "tools"@[0] == 't');
    assert("model"@.len() == 5 && "stream"@.len() == 6 && "system"@.len() == 6 && "messages"@.len() == 8);
    let messages = req.items("messages"@);
    let a = JsonV::obj().with("model"@, JsonV::Str(model_of(req))).with(
        "messages"@,
        JsonV::Array(cc_messages(messages, tool_names(messages))),
    ).with("max_tokens"@, json::int_json(max_tokens_of(req) as int)).with("stream"@, JsonV::Bool(true));
    let b = a.with_some("system"@, system_param(system_blocks(req), cfg.empty_system_placeholder));
    let c = b.with_some("temperature"@, req.get_nonnull("temperature"@));
    let d = c.with_some("reasoning_effort"@, req.get_nonnull("reasoning_effort"@));
    let e = d.with("tools"@, JsonV::Array(req.items("tools"@).map_values(|t: JsonV| wire_tool(t))));
    let f = e.with_some(
        "tool_choice"@,
        match req.get("tool_choice"@) {
            Some(tc) => Some(wire_tool_choice(tc)),
            None => None,
        },
    );
    let g = f.with_some("parallel_tool_calls"@, req.get_nonnull("parallel_tool_calls"@));
    assert(g == params_json(cfg, req));
    assert(a.get("stream"@) == Some(JsonV::Bool(true)));
    assert(b.get("stream"@) == a.get("stream"@));
    assert(c.get("stream"@) == a.get("stream"@));
    assert(d.get("stream"@) == a.get("stream"@));
    assert(e.get("stream"@) == a.get("stream"@));
    assert(f.get("stream"@) == a.get("stream"@));
    assert(g.get("stream"@) == a.get("stream"@));
    assert(a.get("model"@) == Some(JsonV::Str(model_of(req))));
    assert(b.get("model"@) == a.get("model"@));
    assert(c.get("model"@) == a.get("model"@));
    assert(d.get("model"@) == a.get("model"@));
    assert(e.get("model"@) == a.get("model"@));
    assert(f.get("model"@) == a.get("model"@));
    assert(g.get("model"@) == a.get("model"@));
}

/// The choice of a tool in a chat request is sent in the upstream form.
pub proof fn tool_choices_are_sent(cfg: ConfigV, profile: DeviceProfileV, req: JsonV, date: Seq<char>)
    ensures
        req.get("tool_choice"@) matches Some(tc) ==> cc_request(cfg, profile, req, date).get2(
            "params"@,
            "tool_choice"@,
        ) == Some(wire_tool_choice(tc)),
{
    broadcast use json::group_members;

    reveal_strlit("tool_choice");
    reveal_strlit("parallel_tool_calls");
    assert("tool_choice"@.len() == 11 && "parallel_tool_calls"@.len() == 19);
    if let Some(tc) = req.get("tool_choice"@) {
        let messages = req.items("messages"@);
        let a = JsonV::obj().with("model"@, JsonV::Str(model_of(req))).with(
            "messages"@,
            JsonV::Array(cc_messages(messages, tool_names(messages))),
        ).with("max_tokens"@, json::int_json(max_tokens_of(req) as int)).with("stream"@, JsonV::Bool(true)).with_some(
            "system"@,
            system_param(system_blocks(req), cfg.empty_system_placeholder),
        ).with_some("temperature"@, req.get_nonnull("temperature"@)).with_some(
            "reasoning_effort"@,
            req.get_nonnull("reasoning_effort"@),
        ).with("tools"@, JsonV::Array(req.items("tools"@).map_values(|t: JsonV| wire_tool(t))));
        let b = a.with_some("tool_choice"@, Some(wire_tool_choice(tc)));
        let c = b.with_some("parallel_tool_calls"@, req.get_nonnull("parallel_tool_calls"@));
        assert(c == params_json(cfg, req));
        assert(b.get("tool_choice"@) == Some(wire_tool_choice(tc)));
        assert(c.get("tool_choice"@) == b.get("tool_choice"@));
    }
}

} // verus!
