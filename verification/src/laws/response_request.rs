//! A Responses request asks the same as a chat request.

use vstd::prelude::*;
use crate::config;
use crate::json::JsonV;
use crate::laws::members;
use crate::laws::message_request;
use crate::laws::upstream_params;
use crate::laws::upstream_request;
use crate::text;
use crate::translate::anthropic_request;
use crate::translate::responses_request;
use crate::translate::responses_request::DraftV;
use crate::util;

verus! {

/// The kind of an input item: its type, and a message where it has a role but no type.
pub open spec fn is_kind(item: JsonV, kind: Seq<char>) -> bool {
    match item.get("type"@) {
        Some(JsonV::Str(t)) => t == kind,
        _ => item.get("role"@) is Some && kind == "message"@,
    }
}

/// The words of content: a text as it stands, or the texts of parts one behind the other.
pub open spec fn words_of(content: Option<JsonV>) -> Seq<char> {
    match content {
        Some(JsonV::Str(s)) => s,
        Some(JsonV::Array(ps)) => members::run_on(message_request::texts_in(ps, "text"@)),
        _ => Seq::empty(),
    }
}

proof fn lemma_empty()
    ensures
        ""@ == Seq::<char>::empty(),
{
    reveal_strlit("");
    assert(""@ =~= Seq::<char>::empty());
}

proof fn lemma_joined(v: Seq<Seq<char>>)
    ensures
        text::joined(v, ""@) == members::run_on(v),
    decreases v.len(),
{
    lemma_empty();
    if v.len() > 1 {
        lemma_joined(v.drop_last());
        assert(members::run_on(v) =~= text::joined(v.drop_last(), ""@) + ""@ + v.last());
    } else if v.len() == 1 {
        assert(v.drop_last() =~= Seq::<Seq<char>>::empty());
        assert(members::run_on(v.drop_last()) =~= Seq::<char>::empty());
        assert(members::run_on(v) =~= v[0]);
    }
}

proof fn lemma_words(content: Option<JsonV>)
    ensures
        responses_request::content_text(content) == words_of(content),
{
    lemma_empty();
    if let Some(JsonV::Array(ps)) = content {
        assert(anthropic_request::part_strs(ps) =~= message_request::texts_in(ps, "text"@));
        lemma_joined(message_request::texts_in(ps, "text"@));
    }
}

/// Whether a chat call is the call of an item: under the identifier that the item names, with its
/// name, and with its arguments to the character.
pub open spec fn is_call_of(c: JsonV, item: JsonV) -> bool {
    &&& c.get("type"@) == Some(JsonV::Str("function"@))
    &&& item.get("call_id"@) matches Some(JsonV::Str(id)) ==> id.len() > 0 ==> c.get("id"@) == Some(JsonV::Str(id))
    &&& item.get("call_id"@) is None ==> (item.get("id"@) matches Some(JsonV::Str(id)) ==> id.len() > 0 ==> c.get("id"@)
        == Some(JsonV::Str(id)))
    &&& c.get("id"@) matches Some(JsonV::Str(id)) && id.len() > 0
    &&& members::inner(c, "function"@, "name"@) == Some(JsonV::Str(members::text_or(item, "name"@, Seq::empty())))
    &&& item.get("arguments"@) matches Some(JsonV::Str(a)) ==> members::inner(c, "function"@, "arguments"@) == Some(
        JsonV::Str(a),
    )
    &&& !(item.get("arguments"@) matches Some(JsonV::Str(_))) ==> members::inner(c, "function"@, "arguments"@) == Some(
        JsonV::Str("{}"@),
    )
}

proof fn lemma_item_call(item: JsonV, uuid: Seq<char>)
    ensures
        is_call_of(responses_request::item_call(item, uuid), item),
{
    lemma_empty();
    reveal_strlit("call_");
    message_request::calls_hold_their_parts(
        match responses_request::named_call_id(item) {
            Some(id) => id,
            None => responses_request::fresh_call_id(uuid),
        },
        item.str_or("name"@, ""@),
        item.str_or("arguments"@, "{}"@),
    );
}

/// Whether a message holds the output of a tool: of the same call, and all of it.
pub open spec fn is_output_of(m: JsonV, item: JsonV) -> bool {
    &&& upstream_request::has_role(m, "tool"@)
    &&& m.get("tool_call_id"@) == Some(JsonV::Str(members::text_or(item, "call_id"@, Seq::empty())))
    &&& m.get("content"@) == Some(JsonV::Str(members::plain(item.get("output"@))))
}

/// Whether a message holds the words of an item that is no message of the assistant.
pub open spec fn is_saying_of(m: JsonV, item: JsonV) -> bool {
    &&& m.get("content"@) == Some(JsonV::Str(words_of(item.get("content"@))))
    &&& if item.get("role"@) == Some(JsonV::Str("system"@)) || item.get("role"@) == Some(JsonV::Str("developer"@)) {
        upstream_request::has_role(m, "system"@)
    } else {
        upstream_request::has_role(m, "user"@)
    }
}

/// Whether an item is a message of the user or of the system.
pub open spec fn is_saying(item: JsonV) -> bool {
    is_kind(item, "message"@) && item.get("role"@) != Some(JsonV::Str("assistant"@))
}

/// The messages of the user and of the system.
pub open spec fn sayings(ms: Seq<JsonV>) -> Seq<JsonV> {
    ms.filter(|m: JsonV| upstream_request::has_role(m, "user"@) || upstream_request::has_role(m, "system"@))
}

/// The messages with the output of tools.
pub open spec fn outputs(ms: Seq<JsonV>) -> Seq<JsonV> {
    ms.filter(|m: JsonV| upstream_request::has_role(m, "tool"@))
}

/// The calls in messages.
pub open spec fn calls(ms: Seq<JsonV>) -> Seq<JsonV>
    decreases ms.len(),
{
    if ms.len() == 0 {
        Seq::empty()
    } else {
        calls(ms.drop_last()) + members::list_in(ms.last(), "tool_calls"@)
    }
}

/// The items that are calls.
pub open spec fn call_items(items: Seq<JsonV>) -> Seq<JsonV> {
    items.filter(|i: JsonV| is_kind(i, "function_call"@))
}

/// The items that are outputs of calls.
pub open spec fn output_items(items: Seq<JsonV>) -> Seq<JsonV> {
    items.filter(|i: JsonV| is_kind(i, "function_call_output"@))
}

/// The items in which someone other than the assistant speaks.
pub open spec fn saying_items(items: Seq<JsonV>) -> Seq<JsonV> {
    items.filter(|i: JsonV| is_saying(i))
}

proof fn lemma_push(ms: Seq<JsonV>, m: JsonV)
    ensures
        sayings(ms.push(m)) == (if upstream_request::has_role(m, "user"@) || upstream_request::has_role(m, "system"@) {
            sayings(ms).push(m)
        } else {
            sayings(ms)
        }),
        outputs(ms.push(m)) == (if upstream_request::has_role(m, "tool"@) {
            outputs(ms).push(m)
        } else {
            outputs(ms)
        }),
        calls(ms.push(m)) == calls(ms) + members::list_in(m, "tool_calls"@),
        call_items(ms.push(m)) == (if is_kind(m, "function_call"@) {
            call_items(ms).push(m)
        } else {
            call_items(ms)
        }),
        output_items(ms.push(m)) == (if is_kind(m, "function_call_output"@) {
            output_items(ms).push(m)
        } else {
            output_items(ms)
        }),
        saying_items(ms.push(m)) == (if is_saying(m) {
            saying_items(ms).push(m)
        } else {
            saying_items(ms)
        }),
{
    reveal(Seq::filter);
    assert(ms.push(m).drop_last() =~= ms);
}

/// The message of the assistant that is being put together.
pub open spec fn is_open(p: Option<JsonV>) -> bool {
    p matches Some(m) ==> m is Object && upstream_request::has_role(m, "assistant"@)
}

/// The calls of a draft.
spec fn all_calls(d: DraftV) -> Seq<JsonV> {
    calls(d.messages) + (match d.pending {
        Some(p) => members::list_in(p, "tool_calls"@),
        None => Seq::empty(),
    })
}

proof fn lemma_names()
    ensures
        "user"@ != "assistant"@,
        "user"@ != "tool"@,
        "user"@ != "system"@,
        "assistant"@ != "tool"@,
        "assistant"@ != "system"@,
        "assistant"@ != "developer"@,
        "tool"@ != "system"@,
        "role"@ != "content"@,
        "role"@ != "tool_calls"@,
        "role"@ != "reasoning_content"@,
        "content"@ != "tool_calls"@,
        "content"@ != "reasoning_content"@,
        "reasoning_content"@ != "tool_calls"@,
        "message"@ != "reasoning"@,
        "message"@ != "function_call"@,
        "message"@ != "function_call_output"@,
        "reasoning"@ != "function_call"@,
        "reasoning"@ != "function_call_output"@,
        "function_call"@ != "function_call_output"@,
{
    reveal_strlit("user");
    reveal_strlit("assistant");
    reveal_strlit("tool");
    reveal_strlit("system");
    reveal_strlit("developer");
    reveal_strlit("role");
    reveal_strlit("content");
    reveal_strlit("tool_calls");
    reveal_strlit("reasoning_content");
    reveal_strlit("message");
    reveal_strlit("reasoning");
    reveal_strlit("function_call");
    reveal_strlit("function_call_output");
    assert("user"@.len() == 4 && "assistant"@.len() == 9 && "tool"@.len() == 4 && "system"@.len() == 6);
    assert("developer"@.len() == 9 && "role"@.len() == 4 && "content"@.len() == 7 && "tool_calls"@.len() == 10);
    assert("reasoning_content"@.len() == 17 && "message"@.len() == 7 && "reasoning"@.len() == 9);
    assert("function_call"@.len() == 13);
    assert("function_call_output"@.len() == 20 && "assistant"@[0] == 'a' && "content"@[0] == 'c');
    assert("developer"@[0] == 'd');
    assert("message"@[0] == 'm' && "reasoning"@[0] == 'r' && "role"@[0] == 'r' && "tool"@[0] == 't');
    assert("user"@[0] == 'u');
}

proof fn lemma_flushed(d: DraftV)
    requires
        is_open(d.pending),
    ensures
        sayings(d.flushed().messages) == sayings(d.messages),
        outputs(d.flushed().messages) == outputs(d.messages),
        calls(d.flushed().messages) == all_calls(d),
{
    lemma_names();
    match d.pending {
        Some(p) => {
            lemma_push(d.messages, p);
            if d.flushed().messages == d.messages {
                assert(members::list_in(p, "tool_calls"@).len() == 0 || d.flushed().messages == d.messages.push(p));
                assert(all_calls(d) =~= calls(d.messages));
            }
        },
        None => {
            assert(all_calls(d) =~= calls(d.messages));
        },
    }
}

proof fn lemma_role_message(role: Seq<char>, content: JsonV)
    ensures
        ({
            let m = anthropic_request::role_message(role, content);
            &&& m is Object && m.get("role"@) == Some(JsonV::Str(role)) && m.get("content"@) == Some(content)
            &&& m.get("tool_calls"@) is None && m.get("reasoning_content"@) is None
        }),
{
    broadcast use members::group_reading;

    lemma_names();
}

proof fn lemma_with_member(d: DraftV, k: Seq<char>, v: JsonV)
    requires
        is_open(d.pending),
        k == "content"@ || k == "reasoning_content"@ || k == "tool_calls"@,
    ensures
        is_open(d.with_member(k, v).pending),
        ({
            let p = d.with_member(k, v).pending->0;
            let q = d.open_message();
            &&& d.with_member(k, v).pending is Some
            &&& p.get(k) == Some(v)
            &&& k != "content"@ ==> p.get("content"@) == q.get("content"@)
            &&& k != "reasoning_content"@ ==> p.get("reasoning_content"@) == q.get("reasoning_content"@)
            &&& k != "tool_calls"@ ==> p.get("tool_calls"@) == q.get("tool_calls"@)
            &&& d.with_member(k, v).messages == d.messages
            &&& d.pending is None ==> q.get("tool_calls"@) is None
        }),
{
    broadcast use members::group_reading;

    lemma_names();
    lemma_role_message("assistant"@, JsonV::Null);
    assert(d.open_message() is Object);
}

/// What an item adds: a call to the calls of the assistant's message, the output of a tool and a
/// saying as messages of their own, words and reasoning to the assistant's message; nothing that
/// was there is lost.
pub proof fn items_are_added(d: DraftV, item: JsonV, uuid: Seq<char>)
    requires
        is_open(d.pending),
    ensures
        ({
            let n = responses_request::item_step(d, item, uuid);
            let old_calls = members::list_in(d.open_message(), "tool_calls"@);
            &&& is_open(n.pending)
            &&& is_kind(item, "function_call"@) ==> n.messages == d.messages && (n.pending matches Some(p) && p.get(
                "content"@,
            ) == d.open_message().get("content"@) && p.get("reasoning_content"@) == d.open_message().get(
                "reasoning_content"@,
            ) && (p.get("tool_calls"@) matches Some(JsonV::Array(cs)) && cs.len() == old_calls.len() + 1 && cs.drop_last()
                == old_calls && is_call_of(cs.last(), item)))
            &&& is_kind(item, "function_call_output"@) ==> n.pending is None && n.messages.len() > 0 && n.messages.drop_last()
                == d.flushed().messages && is_output_of(n.messages.last(), item)
            &&& is_saying(item) ==> n.pending is None && n.messages.len() > 0 && n.messages.drop_last()
                == d.flushed().messages && is_saying_of(n.messages.last(), item)
            &&& is_kind(item, "message"@) && item.get("role"@) == Some(JsonV::Str("assistant"@)) && words_of(
                item.get("content"@),
            ).len() > 0 ==> n.messages == d.messages && (n.pending matches Some(p) && p.get("content"@) == Some(
                JsonV::Str(words_of(item.get("content"@))),
            ) && p.get("tool_calls"@) == d.open_message().get("tool_calls"@) && p.get("reasoning_content"@)
                == d.open_message().get("reasoning_content"@))
            &&& is_kind(item, "reasoning"@) ==> n.messages == d.messages && (responses_request::reasoning_text(item).len()
                > 0 ==> (n.pending matches Some(p) && p.get("reasoning_content"@) == Some(
                JsonV::Str(responses_request::reasoning_text(item)),
            ) && p.get("tool_calls"@) == d.open_message().get("tool_calls"@) && p.get("content"@)
                == d.open_message().get("content"@)))
        }),
{
    broadcast use members::group_reading;

    lemma_names();
    lemma_empty();
    let n = responses_request::item_step(d, item, uuid);
    if !(item is Object) {
        assert(item.get("type"@) is None && item.get("role"@) is None);
    } else if is_kind(item, "function_call"@) {
        lemma_item_call(item, uuid);
        let call = responses_request::item_call(item, uuid);
        let cs = d.open_message().items("tool_calls"@).push(call);
        lemma_with_member(d, "tool_calls"@, JsonV::Array(cs));
        assert(cs.drop_last() =~= d.open_message().items("tool_calls"@));
    } else if is_kind(item, "function_call_output"@) {
    reveal_strlit("role");
    reveal_strlit("tool_call_id");
    reveal_strlit("content");
    assert("role"@.len() == 4 && "tool_call_id"@.len() == 12 && "content"@.len() == 7);
        let m = JsonV::obj().with("role"@, JsonV::Str("tool"@)).with(
            "tool_call_id"@,
            JsonV::Str(item.str_or("call_id"@, ""@)),
        ).with("content"@, JsonV::Str(util::plain_text(item.get("output"@))));
        assert(n == d.said(m));
        assert(n.messages.drop_last() =~= d.flushed().messages);
        assert(is_output_of(m, item));
    } else if is_kind(item, "message"@) {
        lemma_words(item.get("content"@));
        let t = words_of(item.get("content"@));
        lemma_role_message("system"@, JsonV::Str(t));
        lemma_role_message("user"@, JsonV::Str(t));
        if item.get("role"@) == Some(JsonV::Str("assistant"@)) {
            if t.len() > 0 {
                lemma_with_member(d, "content"@, JsonV::Str(t));
            }
        } else {
            assert(n.messages.drop_last() =~= d.flushed().messages);
        }
    } else if is_kind(item, "reasoning"@) {
        if responses_request::reasoning_text(item).len() > 0 {
            lemma_with_member(d, "reasoning_content"@, JsonV::Str(responses_request::reasoning_text(item)));
        }
    }
}

/// The text of a reasoning item is that of its summary, else that of its content, else its own.
pub proof fn reasoning_is_kept(item: JsonV)
    ensures
        members::list_in(item, "summary"@).len() > 0 ==> responses_request::reasoning_text(item) == members::run_on(
            message_request::texts_in(members::list_in(item, "summary"@), "text"@),
        ),
        members::list_in(item, "summary"@).len() == 0 && members::list_in(item, "content"@).len() > 0
            ==> responses_request::reasoning_text(item) == members::run_on(
            message_request::texts_in(members::list_in(item, "content"@), "text"@),
        ),
        members::list_in(item, "summary"@).len() == 0 && members::list_in(item, "content"@).len() == 0
            ==> responses_request::reasoning_text(item) == members::text_or(item, "text"@, Seq::empty()),
{
    lemma_empty();
    let a = members::list_in(item, "summary"@);
    let b = members::list_in(item, "content"@);
    assert(anthropic_request::part_strs(a) =~= message_request::texts_in(a, "text"@));
    assert(anthropic_request::part_strs(b) =~= message_request::texts_in(b, "text"@));
    lemma_joined(message_request::texts_in(a, "text"@));
    lemma_joined(message_request::texts_in(b, "text"@));
}

spec fn matches_items(d: DraftV, d0: DraftV, items: Seq<JsonV>) -> bool {
    let cs = all_calls(d);
    let ci = call_items(items);
    let os = outputs(d.messages);
    let oi = output_items(items);
    let ss = sayings(d.messages);
    let si = saying_items(items);
    let s0 = sayings(d0.messages);
    &&& is_open(d.pending)
    &&& cs.len() == ci.len()
    &&& forall|i: int| 0 <= i < ci.len() ==> is_call_of(#[trigger] cs[i], ci[i])
    &&& os.len() == oi.len()
    &&& forall|i: int| 0 <= i < oi.len() ==> is_output_of(#[trigger] os[i], oi[i])
    &&& ss.len() == s0.len() + si.len()
    &&& forall|i: int| 0 <= i < s0.len() ==> #[trigger] ss[i] == s0[i]
    &&& forall|i: int| 0 <= i < si.len() ==> is_saying_of(ss[s0.len() + i], #[trigger] si[i])
}

proof fn lemma_step_matches(d: DraftV, d0: DraftV, items: Seq<JsonV>, item: JsonV, uuid: Seq<char>)
    requires
        matches_items(d, d0, items),
    ensures
        matches_items(responses_request::item_step(d, item, uuid), d0, items.push(item)),
{
    lemma_names();
    items_are_added(d, item, uuid);
    lemma_flushed(d);
    lemma_push(items, item);
    let n = responses_request::item_step(d, item, uuid);
    let flat = d.flushed().messages;
    lemma_role_message("assistant"@, JsonV::Null);
    if is_kind(item, "function_call"@) {
        let p = n.pending->0;
        let new_calls = members::list_in(p, "tool_calls"@);
        let old_calls = members::list_in(d.open_message(), "tool_calls"@);
        if d.pending is None {
            lemma_blank_calls();
        }
        assert(all_calls(d) =~= calls(d.messages) + old_calls);
        assert(new_calls =~= old_calls.push(new_calls.last()));
        assert(all_calls(n) =~= all_calls(d).push(new_calls.last()));
        assert forall|i: int| 0 <= i < call_items(items.push(item)).len() implies is_call_of(
            #[trigger] all_calls(n)[i],
            call_items(items.push(item))[i],
        ) by {
            if i < call_items(items).len() {
                assert(all_calls(n)[i] == all_calls(d)[i]);
            }
        }
    } else if is_kind(item, "function_call_output"@) || is_saying(item) {
        let m = n.messages.last();
        assert(n.messages =~= flat.push(m));
        lemma_push(flat, m);
        lemma_said_members(d, item, uuid);
        assert(all_calls(n) =~= all_calls(d));
        if is_saying(item) {
            let ss = sayings(n.messages);
            let s0 = sayings(d0.messages);
            let si = saying_items(items.push(item));
            assert forall|i: int| 0 <= i < si.len() implies is_saying_of(ss[s0.len() + i], #[trigger] si[i]) by {
                if i < saying_items(items).len() {
                    assert(si[i] == saying_items(items)[i]);
                    assert(ss[s0.len() + i] == sayings(d.messages)[s0.len() + i]);
                }
            }
            assert forall|i: int| 0 <= i < s0.len() implies #[trigger] ss[i] == s0[i] by {
                assert(ss[i] == sayings(d.messages)[i]);
            }
        } else {
            let os = outputs(n.messages);
            let oi = output_items(items.push(item));
            assert forall|i: int| 0 <= i < oi.len() implies is_output_of(#[trigger] os[i], oi[i]) by {
                if i < output_items(items).len() {
                    assert(os[i] == outputs(d.messages)[i]);
                }
            }
        }
    } else {
        lemma_other_item(d, item, uuid);
    }
}

proof fn lemma_blank_calls()
    ensures
        members::list_in(responses_request::blank_assistant(), "tool_calls"@).len() == 0,
{
    lemma_role_message("assistant"@, JsonV::Null);
}

proof fn lemma_said_members(d: DraftV, item: JsonV, uuid: Seq<char>)
    requires
        is_open(d.pending),
        is_kind(item, "function_call_output"@) || is_saying(item),
    ensures
        members::list_in(responses_request::item_step(d, item, uuid).messages.last(), "tool_calls"@).len() == 0,
{
    broadcast use members::group_reading;

    lemma_names();
    lemma_empty();
    reveal_strlit("role");
    reveal_strlit("tool_call_id");
    reveal_strlit("content");
    reveal_strlit("tool_calls");
    assert("role"@.len() == 4 && "tool_call_id"@.len() == 12 && "content"@.len() == 7 && "tool_calls"@.len() == 10);
    let t = responses_request::content_text(item.get("content"@));
    lemma_role_message("system"@, JsonV::Str(t));
    lemma_role_message("user"@, JsonV::Str(t));
    let m = JsonV::obj().with("role"@, JsonV::Str("tool"@)).with(
        "tool_call_id"@,
        JsonV::Str(item.str_or("call_id"@, ""@)),
    ).with("content"@, JsonV::Str(util::plain_text(item.get("output"@))));
    assert(m.get("tool_calls"@) is None);
}

proof fn lemma_other_item(d: DraftV, item: JsonV, uuid: Seq<char>)
    requires
        is_open(d.pending),
        !is_kind(item, "function_call"@),
        !is_kind(item, "function_call_output"@),
        !is_saying(item),
    ensures
        responses_request::item_step(d, item, uuid).messages == d.messages,
        all_calls(responses_request::item_step(d, item, uuid)) == all_calls(d),
{
    lemma_names();
    lemma_empty();
    lemma_blank_calls();
    let n = responses_request::item_step(d, item, uuid);
    let t = responses_request::content_text(item.get("content"@));
    let r = responses_request::reasoning_text(item);
    lemma_with_member(d, "content"@, JsonV::Str(t));
    lemma_with_member(d, "reasoning_content"@, JsonV::Str(r));
    if n.pending != d.pending {
        assert(members::list_in(n.pending->0, "tool_calls"@) == members::list_in(d.open_message(), "tool_calls"@));
        assert(all_calls(n) =~= all_calls(d));
    }
}

proof fn lemma_items_match(d0: DraftV, items: Seq<JsonV>, uuids: Seq<Seq<char>>)
    requires
        d0.pending is None,
        calls(d0.messages).len() == 0,
        outputs(d0.messages).len() == 0,
    ensures
        matches_items(responses_request::items_step(d0, items, uuids), d0, items),
    decreases items.len(),
{
    reveal(Seq::filter);
    if items.len() == 0 {
        assert(all_calls(d0) =~= calls(d0.messages));
    } else {
        let front = items.drop_last();
        lemma_items_match(d0, front, uuids);
        assert(items =~= front.push(items.last()));
        lemma_step_matches(
            responses_request::items_step(d0, front, uuids),
            d0,
            front,
            items.last(),
            uuids[items.len() - 1],
        );
    }
}

/// Whether messages hold what a list of input items says: each call and each output of a tool,
/// and behind what comes first each saying of the user and the system, all in their order.
pub open spec fn hold_items(ms: Seq<JsonV>, first: Seq<JsonV>, items: Seq<JsonV>) -> bool {
    let ci = call_items(items);
    let oi = output_items(items);
    let si = saying_items(items);
    &&& calls(ms).len() == ci.len()
    &&& forall|i: int| 0 <= i < ci.len() ==> is_call_of(#[trigger] calls(ms)[i], ci[i])
    &&& outputs(ms).len() == oi.len()
    &&& forall|i: int| 0 <= i < oi.len() ==> is_output_of(#[trigger] outputs(ms)[i], oi[i])
    &&& sayings(ms).len() == first.len() + si.len()
    &&& forall|i: int| 0 <= i < first.len() ==> #[trigger] sayings(ms)[i] == first[i]
    &&& forall|i: int| 0 <= i < si.len() ==> is_saying_of(sayings(ms)[first.len() + i], #[trigger] si[i])
}

/// Whether messages are the instructions of a request.
pub open spec fn are_instructions(ms: Seq<JsonV>, req: JsonV) -> bool {
    let t = words_of(req.get("instructions"@));
    if t.len() > 0 {
        ms.len() == 1 && upstream_request::has_role(ms[0], "system"@) && ms[0].get("content"@) == Some(JsonV::Str(t))
    } else {
        ms.len() == 0
    }
}

/// The messages of a request hold its instructions and then its input: a text as one message of
/// the user, and of a list every saying, call and output of a tool.
pub proof fn inputs_are_quoted(req: JsonV, uuids: Seq<Seq<char>>)
    ensures
        ({
            let ms = responses_request::request_messages(req, uuids);
            let first = responses_request::instruction_messages(req);
            &&& are_instructions(first, req)
            &&& req.get("input"@) matches Some(JsonV::Str(s)) ==> ms.len() == first.len() + 1 && ms.drop_last() == first
                && upstream_request::has_role(ms.last(), "user"@) && ms.last().get("content"@) == Some(JsonV::Str(s))
            &&& !(req.get("input"@) matches Some(JsonV::Str(_))) ==> hold_items(
                ms,
                first,
                members::list_in(req, "input"@),
            )
        }),
{
    lemma_names();
    let first = responses_request::instruction_messages(req);
    let t = words_of(req.get("instructions"@));
    lemma_words(req.get("instructions"@));
    lemma_role_message("system"@, JsonV::Str(t));
    let sys = anthropic_request::role_message("system"@, JsonV::Str(t));
    reveal(Seq::filter);
    assert(calls(Seq::empty()) =~= Seq::<JsonV>::empty());
    assert(sayings(Seq::empty()) =~= Seq::<JsonV>::empty());
    assert(outputs(Seq::empty()) =~= Seq::<JsonV>::empty());
    lemma_push(Seq::empty(), sys);
    if t.len() > 0 {
        assert(first =~= Seq::<JsonV>::empty().push(sys));
    } else {
        assert(first =~= Seq::<JsonV>::empty());
    }
    assert(sayings(first) =~= first);
    assert(calls(first).len() == 0 && outputs(first).len() == 0);
    match req.get("input"@) {
        Some(JsonV::Str(s)) => {
            lemma_role_message("user"@, JsonV::Str(s));
            let ms = responses_request::request_messages(req, uuids);
            assert(ms.drop_last() =~= first);
        },
        _ => {
            let items = members::list_in(req, "input"@);
            let d0 = DraftV { messages: first, pending: None };
            lemma_items_match(d0, items, uuids);
            let d = responses_request::items_step(d0, items, uuids);
            lemma_flushed(d);
        },
    }
}

/// The message that is open at the end is kept where it has words or calls.
pub proof fn open_messages_are_kept(d: DraftV, p: JsonV)
    requires
        d.pending == Some(p),
    ensures
        members::list_in(p, "tool_calls"@).len() > 0 || (p.get("content"@) matches Some(JsonV::Str(_)))
            ==> d.flushed().messages == d.messages.push(p),
        d.flushed().pending is None,
        d.flushed().messages == d.messages || d.flushed().messages == d.messages.push(p),
{
}

/// A request keeps what it asks: its model, limit, temperature, effort, tools and choice, and its
/// wish for a stream and for calls side by side.
pub proof fn requests_keep_their_terms(req: JsonV, uuids: Seq<Seq<char>>)
    ensures
        ({
            let c = responses_request::chat_request(req, uuids);
            &&& req.get("model"@) matches Some(m) ==> c.get("model"@) == Some(m)
            &&& c.get("messages"@) == Some(JsonV::Array(responses_request::request_messages(req, uuids)))
            &&& req.get("stream"@) matches Some(JsonV::Bool(b)) ==> c.get("stream"@) == Some(JsonV::Bool(b))
            &&& req.get("stream"@) is None ==> c.get("stream"@) == Some(JsonV::Bool(false))
            &&& c.get("max_tokens"@) == upstream_params::named(req, "max_output_tokens"@)
            &&& c.get("temperature"@) == upstream_params::named(req, "temperature"@)
            &&& c.get("top_p"@) == upstream_params::named(req, "top_p"@)
            &&& c.get("parallel_tool_calls"@) == upstream_params::named(req, "parallel_tool_calls"@)
            &&& members::inner(req, "reasoning"@, "effort"@) matches Some(JsonV::Str(e)) ==> e.len() > 0 ==> c.get(
                "reasoning_effort"@,
            ) == Some(JsonV::Str(e))
            &&& req.get("tool_choice"@) matches Some(JsonV::Str(s)) ==> c.get("tool_choice"@) == Some(JsonV::Str(s))
            &&& members::inner(req, "tool_choice"@, "name"@) matches Some(JsonV::Str(n)) ==> (c.get("tool_choice"@)
                matches Some(t) && t.get("type"@) == Some(JsonV::Str("function"@)) && members::inner(
                t,
                "function"@,
                "name"@,
            ) == Some(JsonV::Str(n)))
            &&& members::list_in(c, "tools"@) == responses_request::request_tools(members::list_in(req, "tools"@))
        }),
{
    broadcast use members::group_reading;

    reveal_strlit("model");
    reveal_strlit("messages");
    reveal_strlit("stream");
    reveal_strlit("tools");
    reveal_strlit("tool_choice");
    reveal_strlit("max_tokens");
    reveal_strlit("temperature");
    reveal_strlit("top_p");
    reveal_strlit("parallel_tool_calls");
    reveal_strlit("reasoning_effort");
    reveal_strlit("type");
    reveal_strlit("function");
    reveal_strlit("name");
    assert("model"@.len() == 5 && "messages"@.len() == 8 && "stream"@.len() == 6 && "tools"@.len() == 5);
    assert("tool_choice"@.len() == 11 && "max_tokens"@.len() == 10 && "temperature"@.len() == 11);
    assert("top_p"@.len() == 5);
    assert("parallel_tool_calls"@.len() == 19 && "reasoning_effort"@.len() == 16 && "type"@.len() == 4);
    assert("function"@.len() == 8);
    assert("name"@.len() == 4 && "function"@[0] == 'f' && "messages"@[0] == 'm' && "model"@[0] == 'm');
    assert("name"@[0] == 'n' && "temperature"@[1] == 'e' && "tool_choice"@[1] == 'o' && "tools"@[0] == 't');
    assert("tools"@[2] == 'o' && "top_p"@[0] == 't' && "top_p"@[2] == 'p' && "type"@[0] == 't');
    let all = JsonV::Array(responses_request::request_messages(req, uuids));
    let stream = JsonV::Bool(config::bool_or(req, "stream"@, false));
    let a = JsonV::obj().with("model"@, req.or_null("model"@)).with("messages"@, all).with("stream"@, stream);
    assert(a is Object && a.get("model"@) == Some(req.or_null("model"@)) && a.get("messages"@) == Some(all)
        && a.get("stream"@) == Some(stream));
    assert(a.get("tools"@) is None && a.get("tool_choice"@) is None && a.get("max_tokens"@) is None && a.get(
        "temperature"@,
    ) is None && a.get("top_p"@) is None && a.get("parallel_tool_calls"@) is None && a.get("reasoning_effort"@) is None);
    let tools = anthropic_request::list_if_any(responses_request::request_tools(req.items("tools"@)));
    let tc = responses_request::request_tool_choice(req);
    let b = a.with_some("tools"@, tools).with_some("tool_choice"@, tc);
    assert(b is Object && b.get("tools"@) == tools && b.get("tool_choice"@) == tc);
    assert(b.get("model"@) == a.get("model"@) && b.get("messages"@) == Some(all) && b.get("stream"@) == Some(stream));
    assert(b.get("max_tokens"@) is None && b.get("temperature"@) is None && b.get("top_p"@) is None && b.get(
        "parallel_tool_calls"@,
    ) is None && b.get("reasoning_effort"@) is None);
    let c = b.with_some("max_tokens"@, req.get_nonnull("max_output_tokens"@)).with_some(
        "temperature"@,
        req.get_nonnull("temperature"@),
    );
    assert(c is Object && c.get("max_tokens"@) == req.get_nonnull("max_output_tokens"@) && c.get("temperature"@)
        == req.get_nonnull("temperature"@));
    assert(c.get("tools"@) == tools && c.get("tool_choice"@) == tc);
    assert(c.get("model"@) == a.get("model"@) && c.get("messages"@) == Some(all) && c.get("stream"@) == Some(stream));
    assert(c.get("top_p"@) is None && c.get("parallel_tool_calls"@) is None && c.get("reasoning_effort"@) is None);
    let d = c.with_some("top_p"@, req.get_nonnull("top_p"@)).with_some(
        "parallel_tool_calls"@,
        req.get_nonnull("parallel_tool_calls"@),
    );
    assert(d is Object && d.get("top_p"@) == req.get_nonnull("top_p"@) && d.get("parallel_tool_calls"@)
        == req.get_nonnull("parallel_tool_calls"@));
    assert(d.get("max_tokens"@) == c.get("max_tokens"@) && d.get("temperature"@) == c.get("temperature"@));
    assert(d.get("tools"@) == tools && d.get("tool_choice"@) == tc && d.get("reasoning_effort"@) is None);
    assert(d.get("model"@) == a.get("model"@) && d.get("messages"@) == Some(all) && d.get("stream"@) == Some(stream));
    assert(responses_request::request_tools(req.items("tools"@)).len() == 0 ==> responses_request::request_tools(
        req.items("tools"@),
    ) =~= Seq::<JsonV>::empty());
}

/// The function tools of a request are offered in their order, and other tools are left out.
pub proof fn tools_are_offered(tools: Seq<JsonV>)
    ensures
        ({
            let ts = responses_request::request_tools(tools);
            let fs = tools.filter(|t: JsonV| t.get("type"@) == Some(JsonV::Str("function"@)) || t.get("name"@) is Some);
            ts.len() == fs.len() && forall|i: int|
                0 <= i < ts.len() ==> message_request::is_tool_of(#[trigger] ts[i], fs[i], "parameters"@)
        }),
    decreases tools.len(),
{
    reveal(Seq::filter);
    if tools.len() > 0 {
        tools_are_offered(tools.drop_last());
        message_request::tools_are_offered(tools.last(), "parameters"@);
        let f = |t: JsonV| t.get("type"@) == Some(JsonV::Str("function"@)) || t.get("name"@) is Some;
        if f(tools.last()) {
            assert(tools.filter(f) == tools.drop_last().filter(f).push(tools.last()));
        }
    }
}

} // verus!
