//! The upstream is asked what the client asks.

use vstd::prelude::*;
use crate::cc;
use crate::json;
use crate::json::JsonV;
use crate::laws::events as said;
use crate::laws::members;
use crate::text;
use crate::util;

verus! {

// ── messages ───────────────────────────────────────────────────

/// The role of a message.
pub open spec fn has_role(msg: JsonV, role: Seq<char>) -> bool {
    msg.get("role"@) == Some(JsonV::Str(role))
}

/// Whether a part is a text.
pub open spec fn is_text(part: JsonV, t: Seq<char>) -> bool {
    &&& part.get("type"@) == Some(JsonV::Str("text"@))
    &&& part.get("text"@) == Some(JsonV::Str(t))
}

proof fn lemma_text_part(t: Seq<char>)
    ensures
        is_text(cc::text_part(t), t),
{
    broadcast use members::group_reading;

    reveal_strlit("type");
    reveal_strlit("text");
    assert("type"@.len() == 4 && "text"@.len() == 4 && "text"@[1] == 'e' && "type"@[1] == 'y');
}

proof fn lemma_message(role: Seq<char>, content: Seq<JsonV>)
    ensures
        has_role(cc::message_json(role, content), role),
        cc::message_json(role, content).get("content"@) == Some(JsonV::Array(content)),
{
    broadcast use members::group_reading;

    reveal_strlit("role");
    reveal_strlit("content");
    assert("role"@.len() == 4 && "content"@.len() == 7);
}

proof fn lemma_roles()
    ensures
        "user"@ != "assistant"@,
        "user"@ != "tool"@,
        "assistant"@ != "tool"@,
        "user"@ != "system"@,
        "user"@ != "developer"@,
        "assistant"@ != "system"@,
        "assistant"@ != "developer"@,
        "tool"@ != "system"@,
        "tool"@ != "developer"@,
{
    reveal_strlit("user");
    reveal_strlit("assistant");
    reveal_strlit("tool");
    reveal_strlit("system");
    reveal_strlit("developer");
    assert("user"@.len() == 4 && "assistant"@.len() == 9 && "tool"@.len() == 4 && "system"@.len() == 6);
    assert("developer"@.len() == 9 && "assistant"@[0] == 'a' && "developer"@[0] == 'd' && "tool"@[0] == 't');
    assert("user"@[0] == 'u');
}

/// The URL of an image part.
pub open spec fn url_of(part: JsonV) -> Seq<char> {
    match members::inner(part, "image_url"@, "url"@) {
        Some(JsonV::Str(u)) => u,
        _ => Seq::empty(),
    }
}

/// Whether a part is sent as the client gave it: an image as an image with the very same URL and
/// the media type that a data URL names, and anything else unchanged.
pub open spec fn is_part_of(sent: JsonV, part: JsonV) -> bool {
    if part.get("type"@) == Some(JsonV::Str("image_url"@)) {
        &&& sent.get("type"@) == Some(JsonV::Str("image"@))
        &&& sent.get("image"@) == Some(JsonV::Str(url_of(part)))
        &&& sent.get("mimeType"@) == (match util::media_type_of(url_of(part)) {
            Some(t) => Some(JsonV::Str(t)),
            None => None,
        })
    } else {
        sent == part
    }
}

proof fn lemma_user_part(part: JsonV)
    ensures
        is_part_of(cc::user_part(part), part),
{
    broadcast use members::group_reading;

    reveal_strlit("type");
    reveal_strlit("image");
    reveal_strlit("mimeType");
    assert("type"@.len() == 4 && "image"@.len() == 5 && "mimeType"@.len() == 8);
    reveal_strlit("");
    assert(""@ =~= Seq::<char>::empty());
}

/// A message of the user keeps all its parts, each in its place; one that is a text is that text.
pub proof fn users_are_quoted(msg: JsonV, names: Seq<(Seq<char>, Seq<char>)>)
    requires
        has_role(msg, "user"@),
    ensures
        ({
            let m = cc::cc_message(msg, names);
            let content = members::list_in(m, "content"@);
            &&& has_role(m, "user"@)
            &&& msg.get("content"@) matches Some(JsonV::Array(parts)) ==> content.len() == parts.len() && forall|i: int|
                0 <= i < parts.len() ==> is_part_of(#[trigger] content[i], parts[i])
            &&& !(msg.get("content"@) matches Some(JsonV::Array(_))) ==> content.len() == 1 && is_text(
                content[0],
                members::plain(msg.get("content"@)),
            )
        }),
{
    let content = cc::user_content(msg.get("content"@));
    lemma_message("user"@, content);
    lemma_text_part(members::plain(msg.get("content"@)));
    if let Some(JsonV::Array(parts)) = msg.get("content"@) {
        assert forall|i: int| 0 <= i < parts.len() implies is_part_of(#[trigger] content[i], parts[i]) by {
            lemma_user_part(parts[i]);
        }
    }
}

/// Whether a part is a tool call of the chat form: with its identifier, its name, and the value
/// that its arguments hold.
pub open spec fn is_call_part(p: JsonV, call: JsonV) -> bool {
    &&& p.get("type"@) == Some(JsonV::Str("tool-call"@))
    &&& call.get("id"@) matches Some(id) ==> said::counts(id) ==> p.get("toolCallId"@) == Some(id)
    &&& p.get("toolName"@) == Some(
        JsonV::Str(
            match members::inner(call, "function"@, "name"@) {
                Some(JsonV::Str(n)) => n,
                _ => Seq::empty(),
            },
        ),
    )
    &&& p.get("input"@) == Some(
        match members::inner(call, "function"@, "arguments"@) {
            Some(JsonV::Str(a)) => match json::json_parsed(a) {
                Some(j) => j,
                None => JsonV::obj(),
            },
            Some(JsonV::Null) => JsonV::obj(),
            None => JsonV::obj(),
            Some(other) => other,
        },
    )
}

proof fn lemma_call_part(call: JsonV)
    ensures
        is_call_part(cc::call_part(call), call),
{
    broadcast use members::group_reading;

    reveal_strlit("type");
    reveal_strlit("toolCallId");
    reveal_strlit("toolName");
    reveal_strlit("input");
    assert("type"@.len() == 4 && "toolCallId"@.len() == 10 && "toolName"@.len() == 8 && "input"@.len() == 5);
    reveal_strlit("");
    assert(""@ =~= Seq::<char>::empty());
    if let Some(id) = call.get("id"@) {
        said::what_counts_is_true(id);
    }
    let a = JsonV::obj().with("type"@, JsonV::Str("tool-call"@)).with_some(
        "toolCallId"@,
        util::truthy_member(call, "id"@),
    );
    assert(a is Object);
    assert(a.get("type"@) == Some(JsonV::Str("tool-call"@)));
}

/// Whether a part of the assistant's content is sent: a text, and reasoning where the message has
/// none in a member of its own.
pub open spec fn is_kept(p: JsonV, with_reasoning: bool) -> bool {
    p.get("type"@) == Some(JsonV::Str("text"@)) || (with_reasoning && p.get("type"@) == Some(
        JsonV::Str("reasoning"@),
    ))
}

proof fn lemma_kept(parts: Seq<JsonV>, with_reasoning: bool)
    ensures
        cc::kept_parts(parts, with_reasoning) == parts.filter(|p: JsonV| is_kept(p, with_reasoning)),
    decreases parts.len(),
{
    reveal(Seq::filter);
    if parts.len() > 0 {
        lemma_kept(parts.drop_last(), with_reasoning);
    }
}

/// The reasoning of an assistant's message, where it has any.
pub open spec fn reasoning_of(msg: JsonV) -> Option<JsonV> {
    match msg.get("reasoning_content"@) {
        Some(r) => if said::counts(r) {
            Some(r)
        } else {
            None
        },
        None => None,
    }
}

/// The content of an assistant's message as the client gave it.
pub open spec fn words_of(msg: JsonV) -> Seq<JsonV> {
    match msg.get("content"@) {
        Some(JsonV::Array(parts)) => parts.filter(|p: JsonV| is_kept(p, reasoning_of(msg) is None)),
        _ => Seq::empty(),
    }
}

/// A message of the assistant keeps its reasoning, then its text or the parts of its text as they
/// stand, then its tool calls, and nothing else.
pub proof fn assistants_are_quoted(msg: JsonV, names: Seq<(Seq<char>, Seq<char>)>)
    requires
        has_role(msg, "assistant"@),
    ensures
        ({
            let m = cc::cc_message(msg, names);
            let content = members::list_in(m, "content"@);
            let calls = members::list_in(msg, "tool_calls"@);
            let n: int = if reasoning_of(msg) is Some {
                1
            } else {
                0
            };
            let said_once = msg.get("content"@) matches Some(JsonV::Str(s)) && s.len() > 0;
            let k: int = if said_once {
                1
            } else {
                words_of(msg).len() as int
            };
            &&& has_role(m, "assistant"@)
            &&& content.len() == n + k + calls.len()
            &&& reasoning_of(msg) matches Some(r) ==> content[0].get("type"@) == Some(JsonV::Str("reasoning"@))
                && content[0].get("text"@) == Some(r)
            &&& msg.get("content"@) matches Some(JsonV::Str(s)) ==> s.len() > 0 ==> is_text(content[n], s)
            &&& !said_once ==> content.subrange(n, n + k) == words_of(msg)
            &&& forall|i: int| 0 <= i < calls.len() ==> is_call_part(content[n + k + i], #[trigger] calls[i])
        }),
{
    lemma_roles();
    let content = cc::assistant_content(msg);
    lemma_message("assistant"@, content);
    if let Some(r) = msg.get("reasoning_content"@) {
        said::what_counts_is_true(r);
    }
    let reasoning = util::truthy_member(msg, "reasoning_content"@);
    assert(reasoning == reasoning_of(msg));
    let first = match reasoning {
        Some(rc) => seq![JsonV::obj().with("type"@, JsonV::Str("reasoning"@)).with("text"@, rc)],
        None => Seq::empty(),
    };
    if let Some(r) = reasoning {
        broadcast use members::group_reading;

    reveal_strlit("type");
    reveal_strlit("text");
    assert("type"@.len() == 4 && "text"@.len() == 4 && "text"@[1] == 'e' && "type"@[1] == 'y');
        assert(first[0].get("type"@) == Some(JsonV::Str("reasoning"@)));
        assert(first[0].get("text"@) == Some(r));
        assert(content[0] == first[0]);
    }
    match msg.get("content"@) {
        Some(JsonV::Str(s)) => {
            lemma_text_part(s);
            if s.len() > 0 {
                assert(content[first.len() as int] == cc::text_part(s));
            } else {
                assert(content.subrange(first.len() as int, first.len() as int) =~= words_of(msg));
            }
        },
        Some(JsonV::Array(parts)) => {
            lemma_kept(parts, reasoning is None);
            let n = first.len() as int;
            assert(content.subrange(n, n + words_of(msg).len()) =~= words_of(msg));
        },
        _ => {
            assert(content.subrange(first.len() as int, first.len() as int) =~= words_of(msg));
        },
    }
    let calls = members::list_in(msg, "tool_calls"@);
    let k = content.len() - calls.len();
    assert forall|i: int| 0 <= i < calls.len() implies is_call_part(content[k + i], #[trigger] calls[i]) by {
        lemma_call_part(calls[i]);
        assert(content[k + i] == cc::call_part(calls[i]));
    }
}

proof fn lemma_text_parts(parts: Seq<JsonV>)
    ensures
        cc::text_parts(parts) == parts.filter(|p: JsonV| p.get("type"@) == Some(JsonV::Str("text"@))).map_values(
            |p: JsonV| members::plain(p.get("text"@)),
        ),
    decreases parts.len(),
{
    reveal(Seq::filter);
    let f = |p: JsonV| p.get("type"@) == Some(JsonV::Str("text"@));
    let g = |p: JsonV| members::plain(p.get("text"@));
    if parts.len() > 0 {
        lemma_text_parts(parts.drop_last());
        let before = parts.drop_last().filter(f);
        if f(parts.last()) {
            assert(parts.filter(f) == before.push(parts.last()));
            assert(before.push(parts.last()).map_values(g) =~= before.map_values(g).push(g(parts.last())));
        }
    } else {
        assert(parts.filter(f).map_values(g) =~= cc::text_parts(parts));
    }
}

/// What a tool gave back, as one text: the texts of its parts on lines of their own.
pub open spec fn output_of(msg: JsonV) -> Seq<char> {
    match msg.get("content"@) {
        Some(JsonV::Array(parts)) => text::joined(
            parts.filter(|p: JsonV| p.get("type"@) == Some(JsonV::Str("text"@))).map_values(
                |p: JsonV| members::plain(p.get("text"@)),
            ),
            "\n"@,
        ),
        c => members::plain(c),
    }
}

/// The result of a tool is sent as the result of the same call, under the name of the tool that
/// was called, with all that the tool gave back.
pub proof fn results_are_handed_on(msg: JsonV, names: Seq<(Seq<char>, Seq<char>)>)
    requires
        has_role(msg, "tool"@),
    ensures
        ({
            let m = cc::cc_message(msg, names);
            let content = members::list_in(m, "content"@);
            let r = content[0];
            &&& has_role(m, "tool"@)
            &&& content.len() == 1
            &&& r.get("type"@) == Some(JsonV::Str("tool-result"@))
            &&& msg.get("tool_call_id"@) matches Some(id) ==> said::counts(id) ==> r.get("toolCallId"@) == Some(id)
            &&& members::inner(r, "output"@, "type"@) == Some(JsonV::Str("text"@))
            &&& members::inner(r, "output"@, "value"@) == Some(JsonV::Str(output_of(msg)))
            &&& msg.get("tool_call_id"@) matches Some(JsonV::Str(id)) ==> (cc::name_for(names, id) matches Some(n)
                ==> n.len() > 0 ==> r.get("toolName"@) == Some(JsonV::Str(n)))
            &&& !(msg.get("tool_call_id"@) matches Some(JsonV::Str(id)) && cc::name_for(names, id) is Some) ==> (msg.get(
                "name"@,
            ) matches Some(JsonV::Str(n)) ==> n.len() > 0 ==> r.get("toolName"@) == Some(JsonV::Str(n)))
        }),
{
    broadcast use members::group_reading;

    lemma_roles();
    lemma_message("tool"@, seq![cc::result_part(msg, names)]);
    if let Some(JsonV::Array(parts)) = msg.get("content"@) {
        lemma_text_parts(parts);
    }
    reveal_strlit("type");
    reveal_strlit("toolCallId");
    reveal_strlit("toolName");
    reveal_strlit("output");
    reveal_strlit("value");
    assert("type"@.len() == 4 && "toolCallId"@.len() == 10 && "toolName"@.len() == 8 && "output"@.len() == 6);
    assert("value"@.len() == 5);
    if let Some(id) = msg.get("tool_call_id"@) {
        said::what_counts_is_true(id);
    }
    let r = cc::result_part(msg, names);
    let a = JsonV::obj().with("type"@, JsonV::Str("tool-result"@)).with_some(
        "toolCallId"@,
        util::truthy_member(msg, "tool_call_id"@),
    );
    assert(a is Object);
    assert(a.get("type"@) == Some(JsonV::Str("tool-result"@)));
    let known = match msg.get_str("tool_call_id"@) {
        Some(id) => match cc::name_for(names, id) {
            Some(n) => JsonV::Str(n),
            None => JsonV::Null,
        },
        None => JsonV::Null,
    };
    let own = msg.or_null("name"@);
    let both = seq![known, own];
    reveal_with_fuel(util::first_truthy_of, 3);
    assert(both.skip(1) =~= seq![own]);
    assert(r.get("toolName"@) == Some(cc::result_name(msg, names)));
}

/// Whether an assistant's message makes a call with an identifier.
pub open spec fn calls_with(msg: JsonV, j: int, id: Seq<char>) -> bool {
    &&& has_role(msg, "assistant"@)
    &&& 0 <= j < members::list_in(msg, "tool_calls"@).len()
    &&& members::list_in(msg, "tool_calls"@)[j].get("id"@) == Some(JsonV::Str(id))
}

proof fn lemma_name_sum(a: Seq<(Seq<char>, Seq<char>)>, b: Seq<(Seq<char>, Seq<char>)>, id: Seq<char>)
    ensures
        cc::name_for(a + b, id) == (match cc::name_for(b, id) {
            Some(n) => Some(n),
            None => cc::name_for(a, id),
        }),
    decreases b.len(),
{
    if b.len() == 0 {
        assert(a + b =~= a);
    } else {
        assert((a + b).drop_last() =~= a + b.drop_last());
        lemma_name_sum(a, b.drop_last(), id);
    }
}

proof fn lemma_call_names(calls: Seq<JsonV>, id: Seq<char>)
    ensures
        (forall|j: int| 0 <= j < calls.len() ==> (#[trigger] calls[j]).get("id"@) != Some(JsonV::Str(id)))
            ==> cc::name_for(cc::call_names(calls), id) is None,
        forall|j: int|
            0 <= j < calls.len() && (#[trigger] calls[j]).get("id"@) == Some(JsonV::Str(id)) && (forall|l: int|
                j < l < calls.len() ==> (#[trigger] calls[l]).get("id"@) != Some(JsonV::Str(id)))
                ==> cc::name_for(cc::call_names(calls), id) == Some(cc::call_name(calls[j])),
    decreases calls.len(),
{
    if calls.len() > 0 {
        let front = calls.drop_last();
        lemma_call_names(front, id);
        let before = cc::call_names(front);
        if let Some(x) = calls.last().get_str("id"@) {
            assert(before.push((x, cc::call_name(calls.last()))).drop_last() =~= before);
        }
        assert(calls.last() == calls[calls.len() - 1]);
        if forall|j: int| 0 <= j < calls.len() ==> (#[trigger] calls[j]).get("id"@) != Some(JsonV::Str(id)) {
            assert forall|j: int| 0 <= j < front.len() implies (#[trigger] front[j]).get("id"@) != Some(
                JsonV::Str(id),
            ) by {
                assert(front[j] == calls[j]);
            }
        }
        assert forall|j: int|
            0 <= j < calls.len() && (#[trigger] calls[j]).get("id"@) == Some(JsonV::Str(id)) && (forall|l: int|
                j < l < calls.len() ==> (#[trigger] calls[l]).get("id"@) != Some(JsonV::Str(id)))
            implies cc::name_for(cc::call_names(calls), id) == Some(cc::call_name(calls[j])) by {
            if j < calls.len() - 1 {
                assert(front[j] == calls[j]);
                assert(calls[calls.len() - 1].get("id"@) != Some(JsonV::Str(id)));
                assert forall|l: int| j < l < front.len() implies (#[trigger] front[l]).get("id"@) != Some(
                    JsonV::Str(id),
                ) by {
                    assert(front[l] == calls[l]);
                }
            }
        }
    }
}

/// An identifier stands for the tool of the last call that has it, wherever in the conversation
/// that is.
pub proof fn names_are_remembered(messages: Seq<JsonV>, i: int, j: int, id: Seq<char>)
    requires
        0 <= i < messages.len(),
        calls_with(messages[i], j, id),
        forall|l: int| j < l ==> !calls_with(messages[i], l, id),
        forall|k: int, l: int| i < k < messages.len() ==> !(#[trigger] calls_with(messages[k], l, id)),
    ensures
        cc::name_for(cc::tool_names(messages), id) == Some(
            match members::inner(members::list_in(messages[i], "tool_calls"@)[j], "function"@, "name"@) {
                Some(JsonV::Str(n)) => n,
                _ => Seq::empty(),
            },
        ),
    decreases messages.len(),
{
    lemma_roles();
    reveal_strlit("");
    assert(""@ =~= Seq::<char>::empty());
    let front = messages.drop_last();
    let last = messages.last();
    let calls = members::list_in(last, "tool_calls"@);
    lemma_call_names(calls, id);
    lemma_name_sum(cc::tool_names(front), cc::call_names(calls), id);
    if i == messages.len() - 1 {
        assert forall|l: int| j < l < calls.len() implies (#[trigger] calls[l]).get("id"@) != Some(JsonV::Str(id)) by {
            assert(!calls_with(messages[i], l, id));
        }
        assert(calls[j].get("id"@) == Some(JsonV::Str(id)));
        reveal_strlit("assistant");
    } else {
        assert(front[i] == messages[i]);
        assert forall|k: int, l: int| i < k < front.len() implies !(#[trigger] calls_with(front[k], l, id)) by {
            assert(front[k] == messages[k]);
            assert(!calls_with(messages[k], l, id));
        }
        names_are_remembered(front, i, j, id);
        if has_role(last, "assistant"@) {
            assert forall|l: int| 0 <= l < calls.len() implies (#[trigger] calls[l]).get("id"@) != Some(
                JsonV::Str(id),
            ) by {
                assert(!calls_with(messages[messages.len() - 1], l, id));
            }
        } else {
            reveal_strlit("assistant");
            assert("assistant"@.len() == 9);
        }
    }
}

/// Whether a message is part of the system prompt.
pub open spec fn is_prompt(msg: JsonV) -> bool {
    has_role(msg, "system"@) || has_role(msg, "developer"@)
}

proof fn lemma_prompt(msg: JsonV)
    ensures
        cc::is_system(msg) == is_prompt(msg),
{
    reveal_strlit("system");
    reveal_strlit("developer");
    assert("system"@.len() == 6 && "developer"@.len() == 9);
    reveal_strlit("");
}

/// The messages that are no part of the system prompt are sent in their order.
pub proof fn messages_keep_their_order(messages: Seq<JsonV>, names: Seq<(Seq<char>, Seq<char>)>)
    ensures
        cc::cc_messages(messages, names) == messages.filter(|m: JsonV| !is_prompt(m)).map_values(
            |m: JsonV| cc::cc_message(m, names),
        ),
    decreases messages.len(),
{
    reveal(Seq::filter);
    let f = |m: JsonV| !is_prompt(m);
    let g = |m: JsonV| cc::cc_message(m, names);
    if messages.len() > 0 {
        messages_keep_their_order(messages.drop_last(), names);
        lemma_prompt(messages.last());
        let before = messages.drop_last().filter(f);
        if f(messages.last()) {
            assert(messages.filter(f) == before.push(messages.last()));
            assert(before.push(messages.last()).map_values(g) =~= before.map_values(g).push(g(messages.last())));
        }
    } else {
        assert(messages.filter(f).map_values(g) =~= cc::cc_messages(messages, names));
    }
}

/// A message of another role is taken for one of the user.
pub proof fn other_roles_are_users(msg: JsonV, names: Seq<(Seq<char>, Seq<char>)>)
    requires
        !has_role(msg, "user"@),
        !has_role(msg, "assistant"@),
        !has_role(msg, "tool"@),
    ensures
        ({
            let m = cc::cc_message(msg, names);
            let content = members::list_in(m, "content"@);
            has_role(m, "user"@) && content.len() == 1 && is_text(content[0], members::plain(msg.get("content"@)))
        }),
{
    reveal_strlit("user");
    reveal_strlit("assistant");
    reveal_strlit("tool");
    assert("user"@.len() == 4 && "assistant"@.len() == 9 && "tool"@.len() == 4 && "tool"@[0] == 't');
    assert("user"@[0] == 'u');
    reveal_strlit("");
    lemma_message("user"@, seq![cc::text_part(util::plain_text(msg.get("content"@)))]);
    lemma_text_part(members::plain(msg.get("content"@)));
}

} // verus!
