//! OpenAI Responses requests as chat requests.

use vstd::prelude::*;
use crate::config;
use crate::json;
use crate::json::{copy_opt_json, no_json, one_json, push_json, Items, Json, JsonV};
use crate::text;
use crate::text::{cat, join, same};
use crate::translate::anthropic_request as chat;
use crate::translate::anthropic_request::{
    array_if_any, is_type, make_chat_tool, make_function_call, make_role_message, strs_of_parts,
};
use crate::util;
use crate::util::{random_uuids, short_id, string_or_empty};

verus! {

// ── texts ──────────────────────────────────────────────────────

/// The text of an item's content: a text, or the texts of a list of parts put together.
pub open spec fn content_text(content: Option<JsonV>) -> Seq<char> {
    match content {
        Some(JsonV::Str(s)) => s,
        Some(JsonV::Array(parts)) => text::joined(chat::part_strs(parts), ""@),
        _ => Seq::empty(),
    }
}

fn responses_text_of(content: Option<&Json>) -> (r: String)
    ensures
        r@ == content_text(json::opt_json(content)),
{
    match content {
        Some(c) => match c {
            Json::Str(s) => s.clone(),
            Json::Array(list) => {
                assert(c@->Array_0 =~= json::models(list@));
                join(&strs_of_parts(&Items::of(Some(list))), "")
            },
            _ => String::new(),
        },
        None => String::new(),
    }
}

/// The text of a reasoning item: of its summary, else of its content, else its own.
pub open spec fn reasoning_text(item: JsonV) -> Seq<char> {
    if item.items("summary"@).len() > 0 {
        text::joined(chat::part_strs(item.items("summary"@)), ""@)
    } else if item.items("content"@).len() > 0 {
        text::joined(chat::part_strs(item.items("content"@)), ""@)
    } else {
        item.str_or("text"@, ""@)
    }
}

fn responses_reasoning_of(item: &Json) -> (r: String)
    ensures
        r@ == reasoning_text(item@),
{
    let summary = item.items("summary");
    if summary.len() > 0 {
        return join(&strs_of_parts(&summary), "");
    }
    let content = item.items("content");
    if content.len() > 0 {
        return join(&strs_of_parts(&content), "");
    }
    item.str_or("text", "").to_owned()
}

// ── input items ────────────────────────────────────────────────

/// The messages so far, and the assistant's message that is still being put together.
pub struct DraftV {
    pub messages: Seq<JsonV>,
    pub pending: Option<JsonV>,
}

/// The messages so far, and the assistant's message that is still being put together: reasoning,
/// text and calls come as items of their own and belong to one message.
struct Draft {
    messages: Vec<Json>,
    pending: Option<Json>,
}

/// An assistant's message without content.
pub open spec fn blank_assistant() -> JsonV {
    chat::role_message("assistant"@, JsonV::Null)
}

impl DraftV {
    pub open spec fn open_message(self) -> JsonV {
        match self.pending {
            Some(p) => p,
            None => blank_assistant(),
        }
    }

    /// Closes the pending message; one with neither text nor calls is dropped.
    pub open spec fn flushed(self) -> DraftV {
        DraftV {
            messages: match self.pending {
                Some(p) => if (p.get("content"@) is None || p.get("content"@) == Some(JsonV::Null)) && p.items(
                    "tool_calls"@,
                ).len() == 0 {
                    self.messages
                } else {
                    self.messages.push(p)
                },
                None => self.messages,
            },
            pending: None,
        }
    }

    /// Closes the pending message and adds another.
    pub open spec fn said(self, message: JsonV) -> DraftV {
        DraftV { messages: self.flushed().messages.push(message), pending: None }
    }

    pub open spec fn with_member(self, k: Seq<char>, v: JsonV) -> DraftV {
        DraftV { messages: self.messages, pending: Some(self.open_message().with(k, v)) }
    }

    pub open spec fn with_call(self, call: JsonV) -> DraftV {
        self.with_member("tool_calls"@, JsonV::Array(self.open_message().items("tool_calls"@).push(call)))
    }
}

impl Draft {
    spec fn view(&self) -> DraftV {
        DraftV { messages: json::models(self.messages@), pending: json::owned_json(self.pending) }
    }

    fn flush(self) -> (r: Draft)
        ensures
            r@ == self@.flushed(),
    {
        let mut messages = self.messages;
        if let Some(p) = self.pending {
            let no_text = match p.get("content") {
                Some(c) => c.is_null(),
                None => true,
            };
            if !(no_text && p.items("tool_calls").len() == 0) {
                push_json(&mut messages, p);
            }
        }
        Draft { messages, pending: None }
    }

    fn say(self, message: Json) -> (r: Draft)
        ensures
            r@ == self@.said(message@),
    {
        let d = self.flush();
        let mut messages = d.messages;
        push_json(&mut messages, message);
        Draft { messages, pending: None }
    }

    fn set(self, k: &str, v: Json) -> (r: Draft)
        ensures
            r@ == self@.with_member(k@, v@),
    {
        let p = match self.pending {
            Some(p) => p,
            None => make_role_message("assistant", Json::Null),
        };
        Draft { messages: self.messages, pending: Some(p.with(k, v)) }
    }

    fn call(self, call: Json) -> (r: Draft)
        ensures
            r@ == self@.with_call(call@),
    {
        let p = match self.pending {
            Some(p) => p,
            None => make_role_message("assistant", Json::Null),
        };
        let mut calls = no_json();
        let ghost known = p@.items("tool_calls"@);
        let items = p.items("tool_calls");
        let mut i: usize = 0;
        assert(known.take(0) =~= Seq::<JsonV>::empty());
        while i < items.len()
            invariant
                i <= known.len(),
                known == items@,
                json::models(calls@) == known.take(i as int),
            decreases known.len() - i,
        {
            push_json(&mut calls, items.at(i).clone());
            i = i + 1;
            assert(known.take(i as int) =~= known.take(i - 1).push(known[i - 1]));
        }
        assert(known.take(i as int) =~= known);
        push_json(&mut calls, call);
        Draft { messages: self.messages, pending: Some(p.with("tool_calls", Json::array(calls))) }
    }
}

/// The type of an item; one that has a role but no type is a message.
pub open spec fn item_type(item: JsonV) -> Option<Seq<char>> {
    match item.get_str("type"@) {
        Some(t) => Some(t),
        None => if item.get("role"@) is Some {
            Some("message"@)
        } else {
            None
        },
    }
}

/// The identifier that a call item names.
pub open spec fn named_call_id(item: JsonV) -> Option<Seq<char>> {
    let v = match item.get("call_id"@) {
        Some(v) => Some(v),
        None => item.get("id"@),
    };
    match json::str_in(v) {
        Some(s) => if s.len() > 0 {
            Some(s)
        } else {
            None
        },
        None => None,
    }
}

/// A call identifier made of a UUID.
pub open spec fn fresh_call_id(uuid: Seq<char>) -> Seq<char> {
    "call_"@ + util::short_id_text(uuid, 8)
}

/// The call in a call item; `uuid` makes its identifier where the item names none.
pub open spec fn item_call(item: JsonV, uuid: Seq<char>) -> JsonV {
    chat::function_call(
        match named_call_id(item) {
            Some(id) => id,
            None => fresh_call_id(uuid),
        },
        item.str_or("name"@, ""@),
        item.str_or("arguments"@, "{}"@),
    )
}

/// The draft after an item. Items that are no objects or of an unknown type add nothing.
pub open spec fn item_step(d: DraftV, item: JsonV, uuid: Seq<char>) -> DraftV {
    let ty = item_type(item);
    if !(item is Object) {
        d
    } else if ty == Some("reasoning"@) {
        if reasoning_text(item).len() > 0 {
            d.with_member("reasoning_content"@, JsonV::Str(reasoning_text(item)))
        } else {
            d
        }
    } else if ty == Some("message"@) {
        let t = content_text(item.get("content"@));
        let role = item.get_str("role"@);
        if role == Some("assistant"@) {
            if t.len() > 0 {
                d.with_member("content"@, JsonV::Str(t))
            } else {
                d
            }
        } else if role == Some("system"@) || role == Some("developer"@) {
            d.said(chat::role_message("system"@, JsonV::Str(t)))
        } else {
            d.said(chat::role_message("user"@, JsonV::Str(t)))
        }
    } else if ty == Some("function_call"@) {
        d.with_call(item_call(item, uuid))
    } else if ty == Some("function_call_output"@) {
        d.said(
            JsonV::obj().with("role"@, JsonV::Str("tool"@)).with(
                "tool_call_id"@,
                JsonV::Str(item.str_or("call_id"@, ""@)),
            ).with("content"@, JsonV::Str(util::plain_text(item.get("output"@)))),
        )
    } else {
        d
    }
}

fn type_of_item(item: &Json) -> (r: Option<&str>)
    ensures
        text::str_opt(r) == item_type(item@),
{
    match item.get_str("type") {
        Some(t) => Some(t),
        None => if item.get("role").is_some() {
            Some("message")
        } else {
            None
        },
    }
}

fn call_id_of(item: &Json) -> (r: Option<&str>)
    ensures
        text::str_opt(r) == named_call_id(item@),
{
    let v = match item.get("call_id") {
        Some(v) => Some(v),
        None => item.get("id"),
    };
    match v {
        Some(v) => match v.as_str() {
            Some(s) => if s.is_empty() {
                None
            } else {
                Some(s)
            },
            None => None,
        },
        None => None,
    }
}

fn step_item(d: Draft, item: &Json, uuid: &str) -> (r: Draft)
    ensures
        r@ == item_step(d@, item@, uuid@),
{
    if !item.is_object() {
        return d;
    }
    let ty = match type_of_item(item) {
        Some(t) => t,
        None => {
            return d;
        },
    };
    if same(ty, "reasoning") {
        let t = responses_reasoning_of(item);
        if t.as_str().is_empty() {
            d
        } else {
            d.set("reasoning_content", Json::Str(t))
        }
    } else if same(ty, "message") {
        let t = responses_text_of(item.get("content"));
        let role = item.get_str("role");
        let (assistant, system) = match role {
            Some(r) => (same(r, "assistant"), same(r, "system") || same(r, "developer")),
            None => (false, false),
        };
        if assistant {
            if t.as_str().is_empty() {
                d
            } else {
                d.set("content", Json::Str(t))
            }
        } else if system {
            d.say(make_role_message("system", Json::Str(t)))
        } else {
            d.say(make_role_message("user", Json::Str(t)))
        }
    } else if same(ty, "function_call") {
        let id = match call_id_of(item) {
            Some(id) => id.to_owned(),
            None => cat("call_", short_id(uuid, 8).as_str()),
        };
        d.call(make_function_call(id.as_str(), item.str_or("name", ""), item.str_or("arguments", "{}")))
    } else if same(ty, "function_call_output") {
        d.say(
            Json::obj().with_str("role", "tool").with_str("tool_call_id", item.str_or("call_id", "")).with_str(
                "content",
                string_or_empty(item.get("output")).as_str(),
            ),
        )
    } else {
        d
    }
}

/// The draft after a list of items; `uuids` has one for each item.
pub open spec fn items_step(d: DraftV, items: Seq<JsonV>, uuids: Seq<Seq<char>>) -> DraftV
    decreases items.len(),
{
    if items.len() == 0 {
        d
    } else {
        item_step(items_step(d, items.drop_last(), uuids), items.last(), uuids[items.len() - 1])
    }
}

/// The message for the instructions of a request.
pub open spec fn instruction_messages(req: JsonV) -> Seq<JsonV> {
    let t = content_text(req.get("instructions"@));
    if t.len() > 0 {
        seq![chat::role_message("system"@, JsonV::Str(t))]
    } else {
        Seq::empty()
    }
}

/// The messages of a request.
pub open spec fn request_messages(req: JsonV, uuids: Seq<Seq<char>>) -> Seq<JsonV> {
    let first = instruction_messages(req);
    match req.get("input"@) {
        Some(JsonV::Str(s)) => first.push(chat::role_message("user"@, JsonV::Str(s))),
        _ => items_step(DraftV { messages: first, pending: None }, req.items("input"@), uuids).flushed().messages,
    }
}

fn make_messages(req: &Json, uuids: &Vec<String>) -> (r: Vec<Json>)
    requires
        uuids@.len() == req@.items("input"@).len(),
    ensures
        json::models(r@) == request_messages(req@, text::texts(uuids@)),
{
    let t = responses_text_of(req.get("instructions"));
    let mut messages = if t.as_str().is_empty() {
        no_json()
    } else {
        one_json(make_role_message("system", Json::Str(t)))
    };
    assert(json::models(messages@) =~= instruction_messages(req@));
    if let Some(input) = req.get("input") {
        if let Some(s) = input.as_str() {
            push_json(&mut messages, make_role_message("user", Json::of_str(s)));
            return messages;
        }
    }
    let items = req.items("input");
    let ghost all = items@;
    let ghost ids = text::texts(uuids@);
    let ghost start = DraftV { messages: json::models(messages@), pending: None };
    let mut d = Draft { messages, pending: None };
    let mut i: usize = 0;
    assert(all.take(0) =~= Seq::<JsonV>::empty());
    while i < items.len()
        invariant
            i <= all.len(),
            all == items@,
            uuids@.len() == all.len(),
            ids == text::texts(uuids@),
            d@ == items_step(start, all.take(i as int), ids),
        decreases all.len() - i,
    {
        assert(all.take(i + 1).drop_last() =~= all.take(i as int));
        assert(all.take(i + 1).last() == all[i as int]);
        d = step_item(d, items.at(i), uuids[i].as_str());
        i = i + 1;
    }
    assert(all.take(i as int) =~= all);
    d.flush().messages
}

// ── the request ────────────────────────────────────────────────

/// The function tools of a request.
pub open spec fn request_tools(tools: Seq<JsonV>) -> Seq<JsonV>
    decreases tools.len(),
{
    if tools.len() == 0 {
        Seq::empty()
    } else {
        let t = tools.last();
        let before = request_tools(tools.drop_last());
        if chat::has_type(t, "function"@) || t.get("name"@) is Some {
            before.push(chat::chat_tool(t, "parameters"@))
        } else {
            before
        }
    }
}

fn make_request_tools(tools: &Items) -> (r: Vec<Json>)
    ensures
        json::models(r@) == request_tools(tools@),
{
    let ghost all = tools@;
    let mut out = no_json();
    let mut i: usize = 0;
    assert(all.take(0) =~= Seq::<JsonV>::empty());
    while i < tools.len()
        invariant
            i <= all.len(),
            all == tools@,
            json::models(out@) == request_tools(all.take(i as int)),
        decreases all.len() - i,
    {
        assert(all.take(i + 1).drop_last() =~= all.take(i as int));
        assert(all.take(i + 1).last() == all[i as int]);
        let t = tools.at(i);
        if is_type(t, "function") || t.get("name").is_some() {
            push_json(&mut out, make_chat_tool(t, "parameters"));
        }
        i = i + 1;
    }
    assert(all.take(i as int) =~= all);
    out
}

/// The choice of a tool in the chat form.
pub open spec fn request_tool_choice(req: JsonV) -> Option<JsonV> {
    match req.get("tool_choice"@) {
        Some(JsonV::Str(s)) => Some(JsonV::Str(s)),
        Some(tc) => match tc.get_str("name"@) {
            Some(name) => Some(
                JsonV::obj().with("type"@, JsonV::Str("function"@)).with(
                    "function"@,
                    JsonV::obj().with("name"@, JsonV::Str(name)),
                ),
            ),
            None => None,
        },
        None => None,
    }
}

fn make_request_tool_choice(req: &Json) -> (r: Option<Json>)
    ensures
        json::owned_json(r) == request_tool_choice(req@),
{
    match req.get("tool_choice") {
        Some(tc) => match tc {
            Json::Str(s) => Some(Json::of_str(s.as_str())),
            _ => match tc.get_str("name") {
                Some(name) => Some(
                    Json::obj().with_str("type", "function").with("function", Json::obj().with_str("name", name)),
                ),
                None => None,
            },
        },
        None => None,
    }
}

/// The reasoning effort that a request names.
pub open spec fn request_effort(req: JsonV) -> Option<JsonV> {
    match req.get("reasoning"@) {
        Some(r) => match r.get_nonempty("effort"@) {
            Some(e) => Some(JsonV::Str(e)),
            None => None,
        },
        None => None,
    }
}

fn make_request_effort(req: &Json) -> (r: Option<Json>)
    ensures
        json::owned_json(r) == request_effort(req@),
{
    match req.get("reasoning") {
        Some(r) => match r.get_nonempty("effort") {
            Some(e) => Some(Json::of_str(e)),
            None => None,
        },
        None => None,
    }
}

/// The chat request for a Responses request; `uuids` has one for each input item, which makes
/// the identifier of a call that names none.
pub open spec fn chat_request(req: JsonV, uuids: Seq<Seq<char>>) -> JsonV {
    JsonV::obj().with("model"@, req.or_null("model"@)).with(
        "messages"@,
        JsonV::Array(request_messages(req, uuids)),
    ).with("stream"@, JsonV::Bool(config::bool_or(req, "stream"@, false))).with_some(
        "tools"@,
        chat::list_if_any(request_tools(req.items("tools"@))),
    ).with_some("tool_choice"@, request_tool_choice(req)).with_some(
        "max_tokens"@,
        req.get_nonnull("max_output_tokens"@),
    ).with_some("temperature"@, req.get_nonnull("temperature"@)).with_some(
        "top_p"@,
        req.get_nonnull("top_p"@),
    ).with_some("parallel_tool_calls"@, req.get_nonnull("parallel_tool_calls"@)).with_some(
        "reasoning_effort"@,
        request_effort(req),
    )
}

/// The chat request for a Responses request, with a UUID for each input item.
pub fn convert_responses_with(resp_req: &Json, uuids: &Vec<String>) -> (r: Json)
    requires
        uuids@.len() == resp_req@.items("input"@).len(),
    ensures
        r@ == chat_request(resp_req@, text::texts(uuids@)),
{
    let req = resp_req;
    let stream = match req.get("stream") {
        Some(s) => match s.as_bool() {
            Some(b) => b,
            None => false,
        },
        None => false,
    };
    Json::obj().with("model", req.or_null("model")).with("messages", Json::array(make_messages(req, uuids))).with(
        "stream",
        Json::Bool(stream),
    ).with_some("tools", array_if_any(make_request_tools(&req.items("tools")))).with_some(
        "tool_choice",
        make_request_tool_choice(req),
    ).with_some("max_tokens", copy_opt_json(req.get_nonnull("max_output_tokens"))).with_some(
        "temperature",
        copy_opt_json(req.get_nonnull("temperature")),
    ).with_some("top_p", copy_opt_json(req.get_nonnull("top_p"))).with_some(
        "parallel_tool_calls",
        copy_opt_json(req.get_nonnull("parallel_tool_calls")),
    ).with_some("reasoning_effort", make_request_effort(req))
}

/// The chat request for a Responses request; a call that names no identifier gets a random one.
pub fn convert_responses_to_chat(resp_req: &Json) -> (r: Json)
    ensures
        exists|uuids: Seq<Seq<char>>|
            util::uuid_list(uuids, resp_req@.items("input"@).len()) && r@ == #[trigger] chat_request(resp_req@, uuids),
{
    let uuids = random_uuids(resp_req.items("input").len());
    convert_responses_with(resp_req, &uuids)
}

// ── laws ───────────────────────────────────────────────────────

/// Whether an item is a call.
pub open spec fn is_call_item(item: JsonV) -> bool {
    item is Object && item_type(item) == Some("function_call"@)
}

/// Calls that follow each other become calls of one message of the assistant.
pub proof fn calls_in_a_row_are_one_message(d: DraftV, a: JsonV, b: JsonV, ua: Seq<char>, ub: Seq<char>)
    requires
        is_call_item(a),
        is_call_item(b),
        d.open_message() is Object,
    ensures
        ({
            let after = item_step(item_step(d, a, ua), b, ub);
            &&& after.messages == d.messages
            &&& after.pending matches Some(p) && p.items("tool_calls"@) == d.open_message().items("tool_calls"@).push(
                item_call(a, ua),
            ).push(item_call(b, ub))
        }),
{
    broadcast use json::group_members;

    reveal_strlit("function_call");
    reveal_strlit("reasoning");
    reveal_strlit("message");
    assert("function_call"@.len() == 13 && "reasoning"@.len() == 9 && "message"@.len() == 7);
    let one = item_step(d, a, ua);
    let calls = d.open_message().items("tool_calls"@).push(item_call(a, ua));
    assert(one == d.with_call(item_call(a, ua)));
    assert(one.open_message() == d.open_message().with("tool_calls"@, JsonV::Array(calls)));
    assert(one.open_message().get("tool_calls"@) == Some(JsonV::Array(calls)));
    assert(one.open_message().items("tool_calls"@) == calls);
    let two = item_step(one, b, ub);
    assert(two == one.with_call(item_call(b, ub)));
    assert(two.pending->0.get("tool_calls"@) == Some(JsonV::Array(calls.push(item_call(b, ub)))));
}

/// The result of a call, and whatever a user or the system says, closes the message of the
/// assistant that is being put together and comes behind it.
pub proof fn others_follow_the_assistant(d: DraftV, message: JsonV)
    ensures
        d.said(message).pending is None,
        d.said(message).messages == d.flushed().messages.push(message),
        d.said(message).messages.last() == message,
{
}

} // verus!
