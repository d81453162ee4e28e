//! Anthropic message requests as chat requests.

use vstd::prelude::*;
use crate::cc;
use crate::cc::{make_empty_schema, make_text_part, NameTable};
use crate::config;
use crate::json;
use crate::json::{copy_opt_json, json_string, no_json, one_json, push_json, Items, Json, JsonV};
use crate::text;
use crate::text::{cat4, join, no_texts, push_text, same};
use crate::util;
use crate::util::{nullish_i64, nullish_num, string_or_empty};

verus! {

// ── content blocks ─────────────────────────────────────────────

pub open spec fn has_type(b: JsonV, ty: Seq<char>) -> bool {
    b.get_str("type"@) == Some(ty)
}

pub(crate) fn is_type(b: &Json, ty: &str) -> (r: bool)
    ensures
        r == has_type(b@, ty@),
{
    match b.get_str("type") {
        Some(t) => same(t, ty),
        None => false,
    }
}

/// A text block, with its cache breakpoint.
pub open spec fn carried_text(b: JsonV) -> JsonV {
    cc::text_part(b.str_or("text"@, ""@)).with_some("cache_control"@, cc::cache_mark(b))
}

fn carry_text(b: &Json) -> (r: Json)
    ensures
        r@ == carried_text(b@),
{
    make_text_part(b.str_or("text", "")).with_some("cache_control", copy_opt_json(b.get_nonnull("cache_control")))
}

/// The text blocks.
pub open spec fn carried_texts(blocks: Seq<JsonV>) -> Seq<JsonV>
    decreases blocks.len(),
{
    if blocks.len() == 0 {
        Seq::empty()
    } else if has_type(blocks.last(), "text"@) {
        carried_texts(blocks.drop_last()).push(carried_text(blocks.last()))
    } else {
        carried_texts(blocks.drop_last())
    }
}

fn carry_texts(blocks: &Items) -> (r: Vec<Json>)
    ensures
        json::models(r@) == carried_texts(blocks@),
{
    let ghost all = blocks@;
    let mut out = no_json();
    let mut i: usize = 0;
    assert(all.take(0) =~= Seq::<JsonV>::empty());
    while i < blocks.len()
        invariant
            i <= all.len(),
            all == blocks@,
            json::models(out@) == carried_texts(all.take(i as int)),
        decreases all.len() - i,
    {
        assert(all.take(i + 1).drop_last() =~= all.take(i as int));
        assert(all.take(i + 1).last() == all[i as int]);
        let b = blocks.at(i);
        if is_type(b, "text") {
            push_json(&mut out, carry_text(b));
        }
        i = i + 1;
    }
    assert(all.take(i as int) =~= all);
    out
}

/// The texts of the text blocks.
pub open spec fn block_texts(blocks: Seq<JsonV>) -> Seq<Seq<char>>
    decreases blocks.len(),
{
    if blocks.len() == 0 {
        Seq::empty()
    } else if has_type(blocks.last(), "text"@) {
        block_texts(blocks.drop_last()).push(blocks.last().str_or("text"@, ""@))
    } else {
        block_texts(blocks.drop_last())
    }
}

fn texts_of_blocks(blocks: &Items) -> (r: Vec<String>)
    ensures
        text::texts(r@) == block_texts(blocks@),
{
    let ghost all = blocks@;
    let mut out = no_texts();
    let mut i: usize = 0;
    assert(all.take(0) =~= Seq::<JsonV>::empty());
    while i < blocks.len()
        invariant
            i <= all.len(),
            all == blocks@,
            text::texts(out@) == block_texts(all.take(i as int)),
        decreases all.len() - i,
    {
        assert(all.take(i + 1).drop_last() =~= all.take(i as int));
        assert(all.take(i + 1).last() == all[i as int]);
        let b = blocks.at(i);
        if is_type(b, "text") {
            push_text(&mut out, b.str_or("text", "").to_owned());
        }
        i = i + 1;
    }
    assert(all.take(i as int) =~= all);
    out
}

/// The texts in the member `k` of the blocks of a type, put together.
pub open spec fn gathered(blocks: Seq<JsonV>, ty: Seq<char>, k: Seq<char>) -> Seq<char>
    decreases blocks.len(),
{
    if blocks.len() == 0 {
        Seq::empty()
    } else if has_type(blocks.last(), ty) {
        gathered(blocks.drop_last(), ty, k) + blocks.last().str_or(k, ""@)
    } else {
        gathered(blocks.drop_last(), ty, k)
    }
}

fn gather(blocks: &Items, ty: &str, k: &str) -> (r: String)
    ensures
        r@ == gathered(blocks@, ty@, k@),
{
    let ghost all = blocks@;
    let mut out = String::new();
    let mut i: usize = 0;
    assert(all.take(0) =~= Seq::<JsonV>::empty());
    while i < blocks.len()
        invariant
            i <= all.len(),
            all == blocks@,
            out@ == gathered(all.take(i as int), ty@, k@),
        decreases all.len() - i,
    {
        assert(all.take(i + 1).drop_last() =~= all.take(i as int));
        assert(all.take(i + 1).last() == all[i as int]);
        let b = blocks.at(i);
        if is_type(b, ty) {
            out.append(b.str_or(k, ""));
        }
        i = i + 1;
    }
    assert(all.take(i as int) =~= all);
    out
}

/// Whether a text block has a cache breakpoint.
pub open spec fn text_marked(blocks: Seq<JsonV>) -> bool {
    exists|i: int| 0 <= i < blocks.len() && has_type(#[trigger] blocks[i], "text"@) && cc::cache_mark(blocks[i]) is Some
}

fn is_text_marked(blocks: &Items) -> (r: bool)
    ensures
        r == text_marked(blocks@),
{
    let mut i: usize = 0;
    while i < blocks.len()
        invariant
            i <= blocks@.len(),
            forall|k: int|
                0 <= k < i ==> !(has_type(#[trigger] blocks@[k], "text"@) && cc::cache_mark(blocks@[k]) is Some),
        decreases blocks@.len() - i,
    {
        let b = blocks.at(i);
        if is_type(b, "text") && b.get_nonnull("cache_control").is_some() {
            assert(has_type(blocks@[i as int], "text"@));
            return true;
        }
        i = i + 1;
    }
    false
}

// ── the system prompt ──────────────────────────────────────────

pub open spec fn role_message(role: Seq<char>, content: JsonV) -> JsonV {
    JsonV::obj().with("role"@, JsonV::Str(role)).with("content"@, content)
}

pub(crate) fn make_role_message(role: &str, content: Json) -> (r: Json)
    ensures
        r@ == role_message(role@, content@),
{
    Json::obj().with_str("role", role).with("content", content)
}

/// The system message of a request: none where its prompt is empty.
pub open spec fn system_messages(req: JsonV) -> Seq<JsonV> {
    match req.get("system"@) {
        Some(JsonV::Str(s)) => if s.len() > 0 {
            seq![role_message("system"@, JsonV::Str(s))]
        } else {
            Seq::empty()
        },
        Some(JsonV::Array(blocks)) => if text::joined(block_texts(blocks), "\n"@).len() > 0 {
            seq![role_message("system"@, JsonV::Array(carried_texts(blocks)))]
        } else {
            Seq::empty()
        },
        _ => Seq::empty(),
    }
}

fn make_system_messages(req: &Json) -> (r: Vec<Json>)
    ensures
        json::models(r@) == system_messages(req@),
{
    if let Some(sys) = req.get("system") {
        match sys {
            Json::Str(s) => if !s.as_str().is_empty() {
                return one_json(make_role_message("system", Json::of_str(s.as_str())));
            },
            Json::Array(list) => {
                assert(sys@->Array_0 =~= json::models(list@));
                let blocks = Items::of(Some(list));
                if !join(&texts_of_blocks(&blocks), "\n").as_str().is_empty() {
                    return one_json(make_role_message("system", Json::array(carry_texts(&blocks))));
                }
            },
            _ => {},
        }
    }
    no_json()
}

// ── the assistant's messages ───────────────────────────────────

pub open spec fn str_or_empty(o: Option<JsonV>) -> Seq<char> {
    match json::str_in(o) {
        Some(s) => s,
        None => ""@,
    }
}

/// The blocks of an assistant's message; content that is no list is one text block.
pub open spec fn assistant_blocks(msg: JsonV) -> Seq<JsonV> {
    match msg.get("content"@) {
        Some(JsonV::Array(blocks)) => blocks,
        c => seq![cc::text_part(str_or_empty(c))],
    }
}

pub open spec fn use_call(b: JsonV) -> JsonV {
    let input = match b.get("input"@) {
        Some(j) => j,
        None => JsonV::obj(),
    };
    function_call(b.str_or("id"@, ""@), b.str_or("name"@, ""@), json::json_text(input))
}

/// A function call in the chat form.
pub open spec fn function_call(id: Seq<char>, name: Seq<char>, arguments: Seq<char>) -> JsonV {
    JsonV::obj().with("id"@, JsonV::Str(id)).with("type"@, JsonV::Str("function"@)).with(
        "function"@,
        JsonV::obj().with("name"@, JsonV::Str(name)).with("arguments"@, JsonV::Str(arguments)),
    )
}

pub(crate) fn make_function_call(id: &str, name: &str, arguments: &str) -> (r: Json)
    ensures
        r@ == function_call(id@, name@, arguments@),
{
    Json::obj().with_str("id", id).with_str("type", "function").with(
        "function",
        Json::obj().with_str("name", name).with_str("arguments", arguments),
    )
}

/// The calls in the blocks that use a tool.
pub open spec fn use_calls(blocks: Seq<JsonV>) -> Seq<JsonV>
    decreases blocks.len(),
{
    if blocks.len() == 0 {
        Seq::empty()
    } else if has_type(blocks.last(), "tool_use"@) {
        use_calls(blocks.drop_last()).push(use_call(blocks.last()))
    } else {
        use_calls(blocks.drop_last())
    }
}

/// The identifiers and names in the blocks that use a tool.
pub open spec fn use_names(blocks: Seq<JsonV>) -> Seq<(Seq<char>, Seq<char>)>
    decreases blocks.len(),
{
    if blocks.len() == 0 {
        Seq::empty()
    } else if has_type(blocks.last(), "tool_use"@) {
        use_names(blocks.drop_last()).push((blocks.last().str_or("id"@, ""@), blocks.last().str_or("name"@, ""@)))
    } else {
        use_names(blocks.drop_last())
    }
}

fn make_use_calls(blocks: &Items) -> (r: Vec<Json>)
    ensures
        json::models(r@) == use_calls(blocks@),
{
    let ghost all = blocks@;
    let mut out = no_json();
    let mut i: usize = 0;
    assert(all.take(0) =~= Seq::<JsonV>::empty());
    while i < blocks.len()
        invariant
            i <= all.len(),
            all == blocks@,
            json::models(out@) == use_calls(all.take(i as int)),
        decreases all.len() - i,
    {
        assert(all.take(i + 1).drop_last() =~= all.take(i as int));
        assert(all.take(i + 1).last() == all[i as int]);
        let b = blocks.at(i);
        if is_type(b, "tool_use") {
            let arguments = match b.get("input") {
                Some(j) => json_string(j),
                None => json_string(&Json::obj()),
            };
            push_json(&mut out, make_function_call(b.str_or("id", ""), b.str_or("name", ""), arguments.as_str()));
        }
        i = i + 1;
    }
    assert(all.take(i as int) =~= all);
    out
}

fn add_use_names(names: &mut NameTable, blocks: &Items)
    ensures
        final(names)@ == old(names)@ + use_names(blocks@),
{
    let ghost all = blocks@;
    let ghost start = names@;
    let mut i: usize = 0;
    assert(all.take(0) =~= Seq::<JsonV>::empty());
    assert(start + use_names(all.take(0)) =~= start);
    while i < blocks.len()
        invariant
            i <= all.len(),
            all == blocks@,
            names@ == start + use_names(all.take(i as int)),
        decreases all.len() - i,
    {
        assert(all.take(i + 1).drop_last() =~= all.take(i as int));
        assert(all.take(i + 1).last() == all[i as int]);
        let b = blocks.at(i);
        if is_type(b, "tool_use") {
            names.add(b.str_or("id", ""), b.str_or("name", ""));
        }
        assert(names@ =~= start + use_names(all.take(i + 1)));
        i = i + 1;
    }
    assert(all.take(i as int) =~= all);
}

pub open spec fn text_if_any(s: Seq<char>) -> Option<JsonV> {
    if s.len() > 0 {
        Some(JsonV::Str(s))
    } else {
        None
    }
}

pub(crate) fn str_if_any(s: &str) -> (r: Option<Json>)
    ensures
        json::owned_json(r) == text_if_any(s@),
{
    if s.is_empty() {
        None
    } else {
        Some(Json::of_str(s))
    }
}

pub open spec fn list_if_any(v: Seq<JsonV>) -> Option<JsonV> {
    if v.len() > 0 {
        Some(JsonV::Array(v))
    } else {
        None
    }
}

pub(crate) fn array_if_any(v: Vec<Json>) -> (r: Option<Json>)
    ensures
        json::owned_json(r) == list_if_any(json::models(v@)),
{
    assert(json::models(v@).len() == v@.len());
    if v.len() > 0 {
        Some(Json::array(v))
    } else {
        None
    }
}

/// The content of an assistant's message: the text blocks where there are several or one has a
/// cache breakpoint, else their text, else nothing.
pub open spec fn assistant_text(blocks: Seq<JsonV>) -> JsonV {
    let parts = carried_texts(blocks);
    let t = gathered(blocks, "text"@, "text"@);
    if parts.len() > 1 || text_marked(blocks) {
        JsonV::Array(parts)
    } else if t.len() == 0 {
        JsonV::Null
    } else {
        JsonV::Str(t)
    }
}

pub open spec fn assistant_message(msg: JsonV) -> JsonV {
    let blocks = assistant_blocks(msg);
    role_message("assistant"@, assistant_text(blocks)).with_some(
        "reasoning_content"@,
        text_if_any(gathered(blocks, "thinking"@, "thinking"@)),
    ).with_some("tool_calls"@, list_if_any(use_calls(blocks)))
}

fn make_assistant_message(blocks: &Items) -> (r: Json)
    ensures
        r@ == role_message("assistant"@, assistant_text(blocks@)).with_some(
            "reasoning_content"@,
            text_if_any(gathered(blocks@, "thinking"@, "thinking"@)),
        ).with_some("tool_calls"@, list_if_any(use_calls(blocks@))),
{
    let parts = carry_texts(blocks);
    let t = gather(blocks, "text", "text");
    assert(json::models(parts@).len() == parts@.len());
    let content = if parts.len() > 1 || is_text_marked(blocks) {
        Json::array(parts)
    } else if t.as_str().is_empty() {
        Json::Null
    } else {
        Json::Str(t)
    };
    make_role_message("assistant", content).with_some(
        "reasoning_content",
        str_if_any(gather(blocks, "thinking", "thinking").as_str()),
    ).with_some("tool_calls", array_if_any(make_use_calls(blocks)))
}

// ── the user's messages ────────────────────────────────────────

/// The URL of an image block: a data URL for an image that is given as base64, else its address.
pub open spec fn image_url(b: JsonV) -> Seq<char> {
    let s = match b.get("source"@) {
        Some(j) => j,
        None => JsonV::obj(),
    };
    if has_type(s, "base64"@) && s.str_or("data"@, ""@).len() > 0 {
        "data:"@ + s.str_or("media_type"@, "image/png"@) + ";base64,"@ + s.str_or("data"@, ""@)
    } else {
        s.str_or("url"@, ""@)
    }
}

pub open spec fn image_part(url: Seq<char>) -> JsonV {
    JsonV::obj().with("type"@, JsonV::Str("image_url"@)).with(
        "image_url"@,
        JsonV::obj().with("url"@, JsonV::Str(url)),
    )
}

fn make_image_url(b: &Json) -> (r: String)
    ensures
        r@ == image_url(b@),
{
    proof {
        reveal_strlit("");
    }
    match b.get("source") {
        Some(s) => if is_type(s, "base64") && !s.str_or("data", "").is_empty() {
            cat4("data:", s.str_or("media_type", "image/png"), ";base64,", s.str_or("data", ""))
        } else {
            s.str_or("url", "").to_owned()
        },
        None => {
            assert(image_url(b@) == ""@);
            String::new()
        },
    }
}

/// The text and image blocks of a user.
pub open spec fn user_parts(blocks: Seq<JsonV>) -> Seq<JsonV>
    decreases blocks.len(),
{
    if blocks.len() == 0 {
        Seq::empty()
    } else {
        let b = blocks.last();
        let before = user_parts(blocks.drop_last());
        if has_type(b, "text"@) {
            before.push(carried_text(b))
        } else if has_type(b, "image"@) && image_url(b).len() > 0 {
            before.push(image_part(image_url(b)))
        } else {
            before
        }
    }
}

fn make_user_parts(blocks: &Items) -> (r: Vec<Json>)
    ensures
        json::models(r@) == user_parts(blocks@),
{
    let ghost all = blocks@;
    let mut out = no_json();
    let mut i: usize = 0;
    assert(all.take(0) =~= Seq::<JsonV>::empty());
    while i < blocks.len()
        invariant
            i <= all.len(),
            all == blocks@,
            json::models(out@) == user_parts(all.take(i as int)),
        decreases all.len() - i,
    {
        assert(all.take(i + 1).drop_last() =~= all.take(i as int));
        assert(all.take(i + 1).last() == all[i as int]);
        let b = blocks.at(i);
        if is_type(b, "text") {
            push_json(&mut out, carry_text(b));
        } else if is_type(b, "image") {
            let url = make_image_url(b);
            if !url.as_str().is_empty() {
                push_json(
                    &mut out,
                    Json::obj().with_str("type", "image_url").with(
                        "image_url",
                        Json::obj().with_str("url", url.as_str()),
                    ),
                );
            }
        }
        i = i + 1;
    }
    assert(all.take(i as int) =~= all);
    out
}

pub open spec fn part_strs(parts: Seq<JsonV>) -> Seq<Seq<char>> {
    parts.map_values(|p: JsonV| p.str_or("text"@, ""@))
}

pub(crate) fn strs_of_parts(parts: &Items) -> (r: Vec<String>)
    ensures
        text::texts(r@) == part_strs(parts@),
{
    let ghost all = part_strs(parts@);
    let mut out = no_texts();
    let mut i: usize = 0;
    assert(all.take(0) =~= Seq::<Seq<char>>::empty());
    while i < parts.len()
        invariant
            i <= parts@.len(),
            all == part_strs(parts@),
            text::texts(out@) == all.take(i as int),
        decreases parts@.len() - i,
    {
        push_text(&mut out, parts.at(i).str_or("text", "").to_owned());
        i = i + 1;
        assert(all.take(i as int) =~= all.take(i - 1).push(all[i - 1]));
    }
    assert(all.take(i as int) =~= all);
    out
}

/// The result of a tool as one text.
pub open spec fn result_text(content: Option<JsonV>) -> Seq<char> {
    match content {
        Some(JsonV::Array(parts)) => text::joined(part_strs(parts), "\n"@),
        c => util::plain_text(c),
    }
}

fn make_result_text(content: Option<&Json>) -> (r: String)
    ensures
        r@ == result_text(json::opt_json(content)),
{
    if let Some(c) = content {
        if let Some(list) = c.as_array() {
            return join(&strs_of_parts(&Items::of(Some(list))), "\n");
        }
    }
    string_or_empty(content)
}

/// The message for the result of a tool. It has a name where the conversation so far has the
/// call that it answers.
pub open spec fn tool_message(b: JsonV, names: Seq<(Seq<char>, Seq<char>)>) -> JsonV {
    JsonV::obj().with("role"@, JsonV::Str("tool"@)).with("tool_call_id"@, b.or_null("tool_use_id"@)).with(
        "content"@,
        JsonV::Str(result_text(b.get("content"@))),
    ).with_some(
        "name"@,
        match b.get_str("tool_use_id"@) {
            Some(id) => match cc::name_for(names, id) {
                Some(n) => Some(JsonV::Str(n)),
                None => None,
            },
            None => None,
        },
    )
}

fn make_tool_message(b: &Json, names: &NameTable) -> (r: Json)
    ensures
        r@ == tool_message(b@, names@),
{
    let name = match b.get_str("tool_use_id") {
        Some(id) => match names.get(id) {
            Some(n) => Some(Json::of_str(n)),
            None => None,
        },
        None => None,
    };
    Json::obj().with_str("role", "tool").with("tool_call_id", b.or_null("tool_use_id")).with_str(
        "content",
        make_result_text(b.get("content")).as_str(),
    ).with_some("name", name)
}

/// The messages for the results of tools among the blocks.
pub open spec fn tool_messages(blocks: Seq<JsonV>, names: Seq<(Seq<char>, Seq<char>)>) -> Seq<JsonV>
    decreases blocks.len(),
{
    if blocks.len() == 0 {
        Seq::empty()
    } else if has_type(blocks.last(), "tool_result"@) {
        tool_messages(blocks.drop_last(), names).push(tool_message(blocks.last(), names))
    } else {
        tool_messages(blocks.drop_last(), names)
    }
}

fn push_tool_messages(out: &mut Vec<Json>, blocks: &Items, names: &NameTable)
    ensures
        json::models(final(out)@) == json::models(old(out)@) + tool_messages(blocks@, names@),
{
    let ghost all = blocks@;
    let ghost start = json::models(out@);
    let mut i: usize = 0;
    assert(all.take(0) =~= Seq::<JsonV>::empty());
    assert(start + tool_messages(all.take(0), names@) =~= start);
    while i < blocks.len()
        invariant
            i <= all.len(),
            all == blocks@,
            json::models(out@) == start + tool_messages(all.take(i as int), names@),
        decreases all.len() - i,
    {
        assert(all.take(i + 1).drop_last() =~= all.take(i as int));
        assert(all.take(i + 1).last() == all[i as int]);
        let b = blocks.at(i);
        if is_type(b, "tool_result") {
            push_json(out, make_tool_message(b, names));
        }
        assert(json::models(out@) =~= start + tool_messages(all.take(i + 1), names@));
        i = i + 1;
    }
    assert(all.take(i as int) =~= all);
}

/// The text of a user's message.
pub open spec fn user_text(content: Option<JsonV>) -> Seq<char> {
    match content {
        Some(JsonV::Str(s)) => s,
        Some(JsonV::Array(blocks)) => gathered(blocks, "text"@, "text"@),
        _ => Seq::empty(),
    }
}

/// The content of a user's message: a text where it is one text without a cache breakpoint, else
/// its parts; none where there is neither text nor part.
pub open spec fn user_message_content(msg: JsonV) -> Option<JsonV> {
    let blocks = msg.items("content"@);
    let parts = user_parts(blocks);
    let t = user_text(msg.get("content"@));
    if parts.len() == 0 && t.len() == 0 {
        None
    } else if parts.len() <= 1 && (parts.len() == 0 || has_type(parts[0], "text"@)) && !text_marked(blocks) {
        Some(JsonV::Str(t))
    } else {
        Some(JsonV::Array(parts))
    }
}

/// The messages for a user's message: the results of tools first, since they must follow the
/// calls that they answer.
pub open spec fn user_messages(msg: JsonV, names: Seq<(Seq<char>, Seq<char>)>) -> Seq<JsonV> {
    let results = tool_messages(msg.items("content"@), names);
    match user_message_content(msg) {
        Some(c) => results.push(role_message("user"@, c)),
        None => results,
    }
}

fn push_user_messages(out: &mut Vec<Json>, msg: &Json, names: &NameTable)
    ensures
        json::models(final(out)@) == json::models(old(out)@) + user_messages(msg@, names@),
{
    let ghost start = json::models(out@);
    let blocks = msg.items("content");
    let parts = make_user_parts(&blocks);
    assert(json::models(parts@).len() == parts@.len());
    let t = match msg.get("content") {
        Some(c) => match c {
            Json::Str(s) => s.clone(),
            Json::Array(list) => {
                assert(c@->Array_0 =~= json::models(list@));
                gather(&blocks, "text", "text")
            },
            _ => String::new(),
        },
        None => String::new(),
    };
    assert(t@ =~= user_text(msg@.get("content"@)));
    push_tool_messages(out, &blocks, names);
    if parts.len() > 0 || !t.as_str().is_empty() {
        let single = parts.len() <= 1 && (parts.len() == 0 || is_type(&parts[0], "text")) && !is_text_marked(&blocks);
        let content = if single {
            Json::Str(t)
        } else {
            Json::array(parts)
        };
        push_json(out, make_role_message("user", content));
    }
    assert(json::models(out@) =~= start + user_messages(msg@, names@));
}

// ── all messages ───────────────────────────────────────────────

/// The identifiers and names of the tools that the assistant has used.
pub open spec fn used_names(messages: Seq<JsonV>) -> Seq<(Seq<char>, Seq<char>)>
    decreases messages.len(),
{
    if messages.len() == 0 {
        Seq::empty()
    } else if cc::role_of(messages.last()) == "assistant"@ {
        used_names(messages.drop_last()) + use_names(assistant_blocks(messages.last()))
    } else {
        used_names(messages.drop_last())
    }
}

/// The messages in the chat form; those of other roles than the two are left out.
pub open spec fn chat_messages(messages: Seq<JsonV>) -> Seq<JsonV>
    decreases messages.len(),
{
    if messages.len() == 0 {
        Seq::empty()
    } else {
        let m = messages.last();
        let before = chat_messages(messages.drop_last());
        if cc::role_of(m) == "assistant"@ {
            before.push(assistant_message(m))
        } else if cc::role_of(m) == "user"@ {
            before + user_messages(m, used_names(messages.drop_last()))
        } else {
            before
        }
    }
}

fn push_chat_messages(out: &mut Vec<Json>, messages: &Items)
    ensures
        json::models(final(out)@) == json::models(old(out)@) + chat_messages(messages@),
{
    let ghost all = messages@;
    let ghost start = json::models(out@);
    let mut names = NameTable::new();
    let mut i: usize = 0;
    assert(all.take(0) =~= Seq::<JsonV>::empty());
    assert(start + chat_messages(all.take(0)) =~= start);
    while i < messages.len()
        invariant
            i <= all.len(),
            all == messages@,
            names@ == used_names(all.take(i as int)),
            json::models(out@) == start + chat_messages(all.take(i as int)),
        decreases all.len() - i,
    {
        assert(all.take(i + 1).drop_last() =~= all.take(i as int));
        assert(all.take(i + 1).last() == all[i as int]);
        let m = messages.at(i);
        let role = m.str_or("role", "");
        if same(role, "assistant") {
            let single = one_json(make_text_part(match m.get("content") {
                Some(c) => match c.as_str() {
                    Some(s) => s,
                    None => "",
                },
                None => "",
            }));
            let list = match m.get("content") {
                Some(c) => c.as_array(),
                None => None,
            };
            let blocks = match list {
                Some(l) => Items::of(Some(l)),
                None => Items::of(Some(&single)),
            };
            assert(blocks@ == assistant_blocks(m@));
            push_json(out, make_assistant_message(&blocks));
            add_use_names(&mut names, &blocks);
        } else if same(role, "user") {
            push_user_messages(out, m, &names);
        }
        assert(json::models(out@) =~= start + chat_messages(all.take(i + 1)));
        i = i + 1;
    }
    assert(all.take(i as int) =~= all);
}

// ── the request ────────────────────────────────────────────────

/// A function tool in the chat form.
pub open spec fn function_tool(name: Seq<char>, description: Seq<char>, parameters: JsonV) -> JsonV {
    JsonV::obj().with("type"@, JsonV::Str("function"@)).with(
        "function"@,
        JsonV::obj().with("name"@, JsonV::Str(name)).with("description"@, JsonV::Str(description)).with(
            "parameters"@,
            parameters,
        ),
    )
}

/// A tool in the chat form; `schema` names the member with its parameters.
pub open spec fn chat_tool(t: JsonV, schema: Seq<char>) -> JsonV {
    function_tool(
        t.str_or("name"@, ""@),
        t.str_or("description"@, ""@),
        match t.get(schema) {
            Some(j) => j,
            None => cc::empty_schema(),
        },
    )
}

pub(crate) fn make_chat_tool(t: &Json, schema: &str) -> (r: Json)
    ensures
        r@ == chat_tool(t@, schema@),
{
    let parameters = match t.get(schema) {
        Some(j) => j.clone(),
        None => make_empty_schema(),
    };
    Json::obj().with_str("type", "function").with(
        "function",
        Json::obj().with_str("name", t.str_or("name", "")).with_str("description", t.str_or("description", "")).with(
            "parameters",
            parameters,
        ),
    )
}

fn make_chat_tools(tools: &Items) -> (r: Vec<Json>)
    ensures
        json::models(r@) == tools@.map_values(|t: JsonV| chat_tool(t, "input_schema"@)),
{
    let ghost all = tools@.map_values(|t: JsonV| chat_tool(t, "input_schema"@));
    let mut out = no_json();
    let mut i: usize = 0;
    assert(all.take(0) =~= Seq::<JsonV>::empty());
    while i < tools.len()
        invariant
            i <= tools@.len(),
            all == tools@.map_values(|t: JsonV| chat_tool(t, "input_schema"@)),
            json::models(out@) == all.take(i as int),
        decreases tools@.len() - i,
    {
        push_json(&mut out, make_chat_tool(tools.at(i), "input_schema"));
        i = i + 1;
        assert(all.take(i as int) =~= all.take(i - 1).push(all[i - 1]));
    }
    assert(all.take(i as int) =~= all);
    out
}

/// The choice of a tool in the chat form; one of an unknown kind is left out.
pub open spec fn chat_tool_choice(tc: JsonV) -> Option<JsonV> {
    match tc.get_str("type"@) {
        None => Some(JsonV::Str("auto"@)),
        Some(ty) => if ty == "auto"@ {
            Some(JsonV::Str("auto"@))
        } else if ty == "any"@ {
            Some(JsonV::Str("required"@))
        } else if ty == "none"@ {
            Some(JsonV::Str("none"@))
        } else if ty == "tool"@ {
            Some(
                JsonV::obj().with("type"@, JsonV::Str("function"@)).with(
                    "function"@,
                    JsonV::obj().with("name"@, tc.or_null("name"@)),
                ),
            )
        } else {
            None
        },
    }
}

fn make_chat_tool_choice(tc: &Json) -> (r: Option<Json>)
    ensures
        json::owned_json(r) == chat_tool_choice(tc@),
{
    match tc.get_str("type") {
        None => Some(Json::of_str("auto")),
        Some(ty) => if same(ty, "auto") {
            Some(Json::of_str("auto"))
        } else if same(ty, "any") {
            Some(Json::of_str("required"))
        } else if same(ty, "none") {
            Some(Json::of_str("none"))
        } else if same(ty, "tool") {
            Some(
                Json::obj().with_str("type", "function").with("function", Json::obj().with("name", tc.or_null("name"))),
            )
        } else {
            None
        },
    }
}

/// The reasoning effort for a request's `thinking`: as named where it is adaptive, else by its
/// budget of tokens.
pub open spec fn effort_of(thinking: JsonV) -> Option<Seq<char>> {
    let ty = thinking.get_str("type"@);
    if ty == Some("disabled"@) || ty == Some("none"@) {
        None
    } else if ty == Some("adaptive"@) {
        Some(
            match thinking.get_nonempty("effort"@) {
                Some(e) => e,
                None => "medium"@,
            },
        )
    } else {
        match util::integer_in(thinking.get("budget_tokens"@)) {
            Some(budget) => Some(
                if budget >= 10_000 {
                    "high"@
                } else if budget >= 5_000 {
                    "medium"@
                } else {
                    "low"@
                },
            ),
            None => None,
        }
    }
}

fn make_effort(thinking: &Json) -> (r: Option<Json>)
    ensures
        json::owned_json(r) == (match effort_of(thinking@) {
            Some(e) => Some(JsonV::Str(e)),
            None => None,
        }),
{
    if is_type(thinking, "disabled") || is_type(thinking, "none") {
        None
    } else if is_type(thinking, "adaptive") {
        match thinking.get_nonempty("effort") {
            Some(e) => Some(Json::of_str(e)),
            None => Some(Json::of_str("medium")),
        }
    } else {
        match nullish_num(thinking.get("budget_tokens")) {
            Some(budget) => Some(
                Json::of_str(
                    if budget >= 10_000 {
                        "high"
                    } else if budget >= 5_000 {
                        "medium"
                    } else {
                        "low"
                    },
                ),
            ),
            None => None,
        }
    }
}

/// The chat request for an Anthropic request.
pub open spec fn chat_request(req: JsonV) -> JsonV {
    JsonV::obj().with("model"@, JsonV::Str(req.str_or("model"@, cc::default_model()))).with(
        "messages"@,
        JsonV::Array(system_messages(req) + chat_messages(req.items("messages"@))),
    ).with("max_tokens"@, json::int_json(util::integer_or(req.get("max_tokens"@), 64_000) as int)).with(
        "stream"@,
        JsonV::Bool(config::bool_or(req, "stream"@, false)),
    ).with_some(
        "tools"@,
        list_if_any(req.items("tools"@).map_values(|t: JsonV| chat_tool(t, "input_schema"@))),
    ).with_some(
        "tool_choice"@,
        match req.get("tool_choice"@) {
            Some(tc) => chat_tool_choice(tc),
            None => None,
        },
    ).with_some("temperature"@, req.get_nonnull("temperature"@)).with_some(
        "top_p"@,
        req.get_nonnull("top_p"@),
    ).with_some("stop"@, req.get_nonnull("stop_sequences"@)).with_some(
        "user"@,
        match req.get2("metadata"@, "user_id"@) {
            Some(JsonV::Null) => None,
            o => o,
        },
    ).with_some(
        "reasoning_effort"@,
        match req.get("thinking"@) {
            Some(t) => match effort_of(t) {
                Some(e) => Some(JsonV::Str(e)),
                None => None,
            },
            None => None,
        },
    )
}

pub fn convert_anthropic_to_openai(anthropic_req: &Json) -> (r: Json)
    ensures
        r@ == chat_request(anthropic_req@),
{
    let req = anthropic_req;
    let mut messages = make_system_messages(req);
    push_chat_messages(&mut messages, &req.items("messages"));
    let stream = match req.get("stream") {
        Some(s) => match s.as_bool() {
            Some(b) => b,
            None => false,
        },
        None => false,
    };
    let tool_choice = match req.get("tool_choice") {
        Some(tc) => make_chat_tool_choice(tc),
        None => None,
    };
    let user = match req.get2("metadata", "user_id") {
        Some(u) => if u.is_null() {
            None
        } else {
            Some(u.clone())
        },
        None => None,
    };
    let effort = match req.get("thinking") {
        Some(t) => make_effort(t),
        None => None,
    };
    Json::obj().with_str("model", req.str_or("model", "deepseek/deepseek-v4-flash")).with(
        "messages",
        Json::array(messages),
    ).with_int("max_tokens", nullish_i64(req.get("max_tokens"), 64_000)).with("stream", Json::Bool(stream)).with_some(
        "tools",
        array_if_any(make_chat_tools(&req.items("tools"))),
    ).with_some("tool_choice", tool_choice).with_some(
        "temperature",
        copy_opt_json(req.get_nonnull("temperature")),
    ).with_some("top_p", copy_opt_json(req.get_nonnull("top_p"))).with_some(
        "stop",
        copy_opt_json(req.get_nonnull("stop_sequences")),
    ).with_some("user", user).with_some("reasoning_effort", effort)
}

// ── laws ───────────────────────────────────────────────────────

/// How many of the blocks are results of tools.
pub open spec fn result_count(blocks: Seq<JsonV>) -> nat
    decreases blocks.len(),
{
    if blocks.len() == 0 {
        0
    } else {
        result_count(blocks.drop_last()) + (if has_type(blocks.last(), "tool_result"@) {
            1nat
        } else {
            0
        })
    }
}

proof fn lemma_role(role: Seq<char>, content: JsonV)
    ensures
        cc::role_of(role_message(role, content)) == role,
{
    broadcast use json::group_members;

    reveal_strlit("role");
    reveal_strlit("content");
    assert("role"@.len() != "content"@.len());
    assert(role_message(role, content).get("role"@) == Some(JsonV::Str(role)));
}

proof fn lemma_tool_role(b: JsonV, names: Seq<(Seq<char>, Seq<char>)>)
    ensures
        cc::role_of(tool_message(b, names)) == "tool"@,
        tool_message(b, names).get("tool_call_id"@) == Some(b.or_null("tool_use_id"@)),
{
    broadcast use json::group_members;

    reveal_strlit("role");
    reveal_strlit("content");
    reveal_strlit("tool_call_id");
    reveal_strlit("name");
    assert("role"@[0] == 'r' && "name"@[0] == 'n');
    assert("role"@.len() == 4 && "content"@.len() == 7 && "tool_call_id"@.len() == 12);
    let plain = JsonV::obj().with("role"@, JsonV::Str("tool"@)).with("tool_call_id"@, b.or_null("tool_use_id"@)).with(
        "content"@,
        JsonV::Str(result_text(b.get("content"@))),
    );
    assert(plain.get("role"@) == Some(JsonV::Str("tool"@)));
    assert(plain.get("tool_call_id"@) == Some(b.or_null("tool_use_id"@)));
    assert(tool_message(b, names).get("role"@) == Some(JsonV::Str("tool"@)));
}

proof fn lemma_tool_messages(blocks: Seq<JsonV>, names: Seq<(Seq<char>, Seq<char>)>)
    ensures
        tool_messages(blocks, names).len() == result_count(blocks),
        forall|i: int|
            0 <= i < tool_messages(blocks, names).len() ==> cc::role_of(#[trigger] tool_messages(blocks, names)[i])
                == "tool"@,
    decreases blocks.len(),
{
    if blocks.len() > 0 {
        lemma_tool_messages(blocks.drop_last(), names);
        lemma_tool_role(blocks.last(), names);
    }
}

/// The results of tools in a user's message come first, one message for each, so that they follow
/// the calls that they answer; what the user says besides comes behind them, in one message.
pub proof fn tool_results_come_first(msg: JsonV, names: Seq<(Seq<char>, Seq<char>)>)
    ensures
        ({
            let ms = user_messages(msg, names);
            let n = result_count(msg.items("content"@));
            &&& n <= ms.len() <= n + 1
            &&& forall|i: int| 0 <= i < n ==> cc::role_of(#[trigger] ms[i]) == "tool"@
            &&& ms.len() == n + 1 ==> cc::role_of(ms[n as int]) == "user"@
            &&& ms.len() == n + 1 <==> user_message_content(msg) is Some
        }),
{
    let blocks = msg.items("content"@);
    lemma_tool_messages(blocks, names);
    let results = tool_messages(blocks, names);
    let ms = user_messages(msg, names);
    if let Some(c) = user_message_content(msg) {
        lemma_role("user"@, c);
        assert forall|i: int| 0 <= i < results.len() implies cc::role_of(#[trigger] ms[i]) == "tool"@ by {
            assert(ms[i] == results[i]);
        }
    }
}

/// The result of a tool names the call that it answers.
pub proof fn tool_results_name_their_call(b: JsonV, names: Seq<(Seq<char>, Seq<char>)>)
    ensures
        tool_message(b, names).get("tool_call_id"@) == Some(b.or_null("tool_use_id"@)),
{
    lemma_tool_role(b, names);
}

/// The choice of a kind of tool use, in the Anthropic and in the upstream form.
pub open spec fn choice_of(kind: Seq<char>) -> JsonV {
    JsonV::obj().with("type"@, JsonV::Str(kind))
}

/// The choice of one tool, in the Anthropic and in the upstream form.
pub open spec fn choice_of_tool(name: JsonV) -> JsonV {
    choice_of("tool"@).with("name"@, name)
}

proof fn lemma_choice_back(tc: JsonV, name: JsonV)
    requires
        tc == choice_of("auto"@) || tc == choice_of("any"@) || tc == choice_of("none"@) || tc == choice_of_tool(name),
    ensures
        chat_tool_choice(tc) matches Some(c) && cc::wire_tool_choice(c) == tc,
{
    broadcast use json::group_members;

    reveal_strlit("type");
    reveal_strlit("name");
    reveal_strlit("auto");
    reveal_strlit("any");
    reveal_strlit("none");
    reveal_strlit("tool");
    reveal_strlit("required");
    reveal_strlit("function");
    assert("type"@[0] == 't' && "name"@[0] == 'n');
    assert("type"@.len() == 4 && "function"@.len() == 8 && "required"@.len() == 8 && "any"@.len() == 3);
    assert("auto"@[0] == 'a' && "none"@[0] == 'n' && "tool"@[0] == 't' && "required"@[0] == 'r');
    assert("auto"@.len() == 4 && "none"@.len() == 4 && "tool"@.len() == 4);
    if tc == choice_of_tool(name) {
        assert(tc.get_str("type"@) == Some("tool"@));
        assert(tc.or_null("name"@) == name);
        let c = chat_tool_choice(tc)->0;
        assert(c.get_str("type"@) == Some("function"@));
        assert(c.get2("function"@, "name"@) == Some(name));
    } else if tc == choice_of("auto"@) {
        assert(tc.get_str("type"@) == Some("auto"@));
    } else if tc == choice_of("any"@) {
        assert(tc.get_str("type"@) == Some("any"@));
    } else {
        assert(tc.get_str("type"@) == Some("none"@));
    }
}

proof fn lemma_chat_choice(req: JsonV, tc: JsonV, c: JsonV)
    requires
        req.get("tool_choice"@) == Some(tc),
        chat_tool_choice(tc) == Some(c),
    ensures
        chat_request(req).get("tool_choice"@) == Some(c),
{
    broadcast use json::group_members;

    reveal_strlit("tool_choice");
    reveal_strlit("temperature");
    reveal_strlit("top_p");
    reveal_strlit("stop");
    reveal_strlit("user");
    reveal_strlit("reasoning_effort");
    assert("tool_choice"@.len() == 11 && "temperature"@.len() == 11 && "tool_choice"@[1] == 'o' && "temperature"@[1]
        == 'e');
    assert("top_p"@.len() == 5 && "stop"@.len() == 4 && "user"@.len() == 4 && "reasoning_effort"@.len() == 16);
    let a = JsonV::obj().with("model"@, JsonV::Str(req.str_or("model"@, cc::default_model()))).with(
        "messages"@,
        JsonV::Array(system_messages(req) + chat_messages(req.items("messages"@))),
    ).with("max_tokens"@, json::int_json(util::integer_or(req.get("max_tokens"@), 64_000) as int)).with(
        "stream"@,
        JsonV::Bool(config::bool_or(req, "stream"@, false)),
    ).with_some(
        "tools"@,
        list_if_any(req.items("tools"@).map_values(|t: JsonV| chat_tool(t, "input_schema"@))),
    ).with_some("tool_choice"@, Some(c));
    assert(a.get("tool_choice"@) == Some(c));
    let b = a.with_some("temperature"@, req.get_nonnull("temperature"@));
    assert(b.get("tool_choice"@) == a.get("tool_choice"@));
    let d = b.with_some("top_p"@, req.get_nonnull("top_p"@));
    assert(d.get("tool_choice"@) == a.get("tool_choice"@));
    let e = d.with_some("stop"@, req.get_nonnull("stop_sequences"@));
    assert(e.get("tool_choice"@) == a.get("tool_choice"@));
    let f = e.with_some(
        "user"@,
        match req.get2("metadata"@, "user_id"@) {
            Some(JsonV::Null) => None,
            o => o,
        },
    );
    assert(f.get("tool_choice"@) == a.get("tool_choice"@));
    let g = f.with_some(
        "reasoning_effort"@,
        match req.get("thinking"@) {
            Some(t) => match effort_of(t) {
                Some(e) => Some(JsonV::Str(e)),
                None => None,
            },
            None => None,
        },
    );
    assert(g.get("tool_choice"@) == a.get("tool_choice"@));
    assert(g == chat_request(req));
}

/// Each choice of a tool that an Anthropic request can make is the one that the upstream is asked
/// for.
pub proof fn tool_choices_come_through(
    cfg: config::ConfigV,
    profile: crate::fingerprint::DeviceProfileV,
    req: JsonV,
    date: Seq<char>,
    tc: JsonV,
    name: JsonV,
)
    requires
        req.get("tool_choice"@) == Some(tc),
        tc == choice_of("auto"@) || tc == choice_of("any"@) || tc == choice_of("none"@) || tc == choice_of_tool(name),
    ensures
        cc::cc_request(cfg, profile, chat_request(req), date).get2("params"@, "tool_choice"@) == Some(tc),
{
    lemma_choice_back(tc, name);
    let c = chat_tool_choice(tc)->0;
    lemma_chat_choice(req, tc, c);
    cc::tool_choices_are_sent(cfg, profile, chat_request(req), date);
}

} // verus!
