//! An answer that is no stream says what the upstream says.

use vstd::prelude::*;
use crate::errors;
use crate::float;
use crate::handlers::chat;
use crate::handlers::gather::GatherV;
use crate::handlers::messages;
use crate::handlers::responses as response_handlers;
use crate::json;
use crate::json::JsonV;
use crate::laws::events as said;
use crate::laws::members;
use crate::laws::numbers;
use crate::translate::anthropic;
use crate::translate::events;
use crate::translate::responses;
use crate::translate::responses::OutputIdsV;
use crate::util;

verus! {

// ── what is gathered ───────────────────────────────────────────

/// The texts in the member `text` of the events of a type, put together.
pub open spec fn texts_by(lines: Seq<Seq<char>>, comments: bool, ty: Seq<char>) -> Seq<char>
    decreases lines.len(),
{
    if lines.len() == 0 {
        Seq::empty()
    } else {
        texts_by(lines.drop_last(), comments, ty) + (match events::event_in(lines.last(), comments) {
            Some(e) => if e.get("type"@) == Some(JsonV::Str(ty)) {
                members::text_or(e, "text"@, Seq::empty())
            } else {
                Seq::empty()
            },
            None => Seq::empty(),
        })
    }
}

/// Whether a call in the chat form is a tool call of the upstream: its input as it stands where
/// that is a text, as JSON where it is anything else but null, and an empty object without one.
pub open spec fn is_call_of(call: JsonV, e: JsonV) -> bool {
    &&& call.get("type"@) == Some(JsonV::Str("function"@))
    &&& members::inner(call, "function"@, "name"@) == Some(
        JsonV::Str(members::text_or(e, "toolName"@, Seq::empty())),
    )
    &&& e.get("toolCallId"@) matches Some(JsonV::Str(id)) ==> id.len() > 0 ==> call.get("id"@) == Some(JsonV::Str(id))
    &&& call.get("id"@) matches Some(JsonV::Str(id)) && id.len() > 0
    &&& members::inner(call, "function"@, "arguments"@) == Some(
        match e.get("input"@) {
            None => JsonV::Str("{}"@),
            Some(JsonV::Null) => JsonV::Str("{}"@),
            Some(JsonV::Str(s)) => JsonV::Str(s),
            Some(j) => JsonV::Str(json::json_text(j)),
        },
    )
}

proof fn lemma_call(e: JsonV, uuid: Seq<char>)
    ensures
        is_call_of(GatherV::call(e, uuid), e),
{
    broadcast use members::group_reading;

    reveal_strlit("id");
    reveal_strlit("type");
    reveal_strlit("function");
    reveal_strlit("name");
    reveal_strlit("arguments");
    assert("id"@.len() == 2 && "type"@.len() == 4 && "function"@.len() == 8 && "name"@.len() == 4);
    assert("arguments"@.len() == 9 && "name"@[0] == 'n' && "type"@[0] == 't');
    reveal_strlit("");
    reveal_strlit("call_");
    assert(""@ =~= Seq::<char>::empty());
    let id = match e.get_nonempty("toolCallId"@) {
        Some(id) => id,
        None => crate::translate::responses_request::fresh_call_id(uuid),
    };
    assert(id.len() > 0);
    let a = JsonV::obj().with("id"@, JsonV::Str(id)).with("type"@, JsonV::Str("function"@));
    assert(a.get("id"@) == Some(JsonV::Str(id)) && a.get("type"@) == Some(JsonV::Str("function"@)));
    let f = JsonV::obj().with("name"@, JsonV::Str(e.str_or("toolName"@, ""@)));
    assert(f.get("name"@) == Some(JsonV::Str(e.str_or("toolName"@, ""@))));
}

/// Over any lines, the text that is gathered is that of the text events, to the character, and the
/// thinking that of the reasoning events; the tool calls are all there, in their order.
pub proof fn what_is_said_is_gathered(comments: bool, step_usage: bool, lines: Seq<Seq<char>>, uuids: Seq<Seq<char>>)
    ensures
        ({
            let g = GatherV::start(comments, step_usage).lines(lines, uuids);
            let cs = said::calls_by(lines, comments);
            &&& g.full_text == texts_by(lines, comments, "text-delta"@)
            &&& g.thinking == texts_by(lines, comments, "reasoning-delta"@)
            &&& g.tool_calls.len() == cs.len()
            &&& forall|i: int| 0 <= i < cs.len() ==> is_call_of(#[trigger] g.tool_calls[i], cs[i])
            &&& g.comments == comments && g.step_usage == step_usage
        }),
    decreases lines.len(),
{
    if lines.len() > 0 {
        let front = lines.drop_last();
        what_is_said_is_gathered(comments, step_usage, front, uuids);
        said::lemma_types();
        said::other_lines_are_none(lines.last(), comments);
        reveal_strlit("");
        assert(""@ =~= Seq::<char>::empty());
        let before = GatherV::start(comments, step_usage).lines(front, uuids);
        let g = GatherV::start(comments, step_usage).lines(lines, uuids);
        assert(g.full_text =~= texts_by(lines, comments, "text-delta"@));
        assert(g.thinking =~= texts_by(lines, comments, "reasoning-delta"@));
        if let Some(e) = events::event_in(lines.last(), comments) {
            lemma_call(e, uuids[lines.len() - 1]);
        }
        let cs = said::calls_by(lines, comments);
        assert forall|i: int| 0 <= i < cs.len() implies is_call_of(#[trigger] g.tool_calls[i], cs[i]) by {
            if i < before.tool_calls.len() {
                assert(g.tool_calls[i] == before.tool_calls[i]);
            }
        }
    }
}

/// An end is noted with the reason that it names and the usage that it reports, an error with its
/// message; no other event changes these.
pub proof fn ends_are_noted(g: GatherV, e: JsonV, ty: Seq<char>, uuid: Seq<char>)
    requires
        e.get("type"@) == Some(JsonV::Str(ty)),
    ensures
        ({
            let n = g.step(e, uuid);
            let ends = ty == "finish"@ || ty == "finish-step"@;
            &&& n.saw_finish == (g.saw_finish || ends)
            &&& ends ==> n.finish_reason == errors::finish_reason_of(members::text_or(e, "finishReason"@, "stop"@))
            &&& !ends ==> n.finish_reason == g.finish_reason && n.usage == g.usage
            &&& ends ==> (e.get("totalUsage"@) matches Some(u) ==> u is Object ==> n.usage == Some(u))
            &&& ends && !(e.get("totalUsage"@) matches Some(JsonV::Object(_))) && g.step_usage ==> (e.get("usage"@) matches Some(
                u,
            ) ==> u is Object ==> n.usage == Some(u))
            &&& ends && !(e.get("totalUsage"@) matches Some(JsonV::Object(_))) && !(e.get("usage"@) matches Some(
                JsonV::Object(_),
            )) ==> n.usage == g.usage
            &&& ty == "error"@ ==> n.upstream_error == Some(errors::event_error(e))
            &&& ty != "error"@ ==> n.upstream_error == g.upstream_error
        }),
{
    said::lemma_types();
    said::totals_come_first(e);
}

// ── token counts ───────────────────────────────────────────────

/// Whether a usage report gives these counts, and some output.
pub open spec fn reports(u: JsonV, input: int, output: int, cached: int) -> bool {
    &&& u is Object
    &&& u.get("inputTokens"@) == Some(json::int_json(input))
    &&& u.get("outputTokens"@) == Some(json::int_json(output))
    &&& u.get("cachedInputTokens"@) == Some(json::int_json(cached))
    &&& numbers::is_exact(input) && numbers::is_exact(output) && numbers::is_exact(cached)
    &&& output != 0
}

/// A report of some output is taken as it stands; in one without output, what went in counts as
/// nothing, and the rest stays.
pub proof fn reports_are_taken_as_they_stand(u: JsonV, input: int, output: int, cached: int)
    ensures
        reports(u, input, output, cached) ==> errors::usage_normal(u) == u && util::integer_or(
            u.get("inputTokens"@),
            0,
        ) == input && util::integer_or(u.get("outputTokens"@), 0) == output && util::integer_or(
            u.get("cachedInputTokens"@),
            0,
        ) == cached,
        u is Object && (u.get("outputTokens"@) is None || u.get("outputTokens"@) == Some(json::int_json(0))) ==> ({
            let n = errors::usage_normal(u);
            &&& n is Object
            &&& n.get("inputTokens"@) == Some(json::int_json(0))
            &&& n.get("cachedInputTokens"@) == Some(json::int_json(0))
            &&& forall|k: Seq<char>|
                k != "inputTokens"@ && k != "cachedInputTokens"@ ==> #[trigger] n.get(k) == u.get(k)
        }),
{
    broadcast use members::group_reading;

    reveal_strlit("inputTokens");
    reveal_strlit("outputTokens");
    reveal_strlit("cachedInputTokens");
    assert("inputTokens"@.len() == 11 && "outputTokens"@.len() == 12 && "cachedInputTokens"@.len() == 17);
    if reports(u, input, output, cached) {
        numbers::integers_are_read(input, 0);
        numbers::integers_are_read(output, 0);
        numbers::integers_are_read(cached, 0);
        assert(errors::has_output(u));
    }
    if u is Object && (u.get("outputTokens"@) is None || u.get("outputTokens"@) == Some(json::int_json(0))) {
        numbers::integers_are_read(0, 0);
        assert(!errors::has_output(u));
        let a = u.with("inputTokens"@, json::int_json(0));
        assert(a is Object);
        let n = errors::usage_normal(u);
        assert forall|k: Seq<char>| k != "inputTokens"@ && k != "cachedInputTokens"@ implies #[trigger] n.get(k) == u.get(
            k,
        ) by {
            assert(a.get(k) == u.get(k));
        }
    }
}

proof fn lemma_exact(n: int)
    requires
        numbers::is_exact(n),
        n >= 0,
    ensures
        float::float_of_int(n) == float::FloatV::Finite(false, (n as nat) * float::one()),
        float::float_to_i64(float::float_of_int(n)) == n,
        float::float_at_least_zero(float::float_of_int(n)),
{
    numbers::integers_are_read(n, 0);
    float::lemma_round_short(n as nat);
}

/// The input as reported without the cache is told as it is.
pub proof fn input_is_told_without_the_cache(u: JsonV, n: int)
    requires
        members::inner(u, "inputTokenDetails"@, "noCacheTokens"@) == Some(json::int_json(n)),
        numbers::is_exact(n),
        n >= 0,
    ensures
        errors::input_tokens_of(Some(u), None) == n,
{
    lemma_exact(n);
}

/// The input without the cache is the whole input less what was read from the cache and what was
/// written to it.
pub proof fn input_is_counted_without_the_cache(u: JsonV, input: int, read: int, written: int)
    requires
        u.get("inputTokens"@) == Some(json::int_json(input)),
        u.get("cachedInputTokens"@) == Some(json::int_json(read)),
        members::inner(u, "inputTokenDetails"@, "noCacheTokens"@) is None,
        members::inner(u, "inputTokenDetails"@, "cacheWriteTokens"@) == (if written > 0 {
            Some(json::int_json(written))
        } else {
            None
        }),
        0 <= read,
        0 <= written,
        read + written <= input,
        numbers::is_exact(input),
    ensures
        errors::input_tokens_of(Some(u), None) == input - read - written,
{
    lemma_exact(input);
    lemma_exact(read);
    lemma_exact(written);
    lemma_exact(input - read);
    lemma_exact(input - read - written);
    float::whole_numbers_are_subtracted(input as nat, read as nat);
    float::whole_numbers_are_subtracted((input - read) as nat, written as nat);
}

/// A count that is known comes first.
pub proof fn known_counts_come_first(usage: Option<JsonV>, n: i64)
    ensures
        n >= 0 ==> errors::input_tokens_of(usage, Some(n)) == n,
        n < 0 ==> errors::input_tokens_of(usage, Some(n)) == errors::input_tokens_of(usage, None),
        errors::input_tokens_of(None, None) == 0,
{
}

// ── chat completions ───────────────────────────────────────────

/// Whether an answer is the completion of what was gathered.
pub open spec fn is_completion(j: JsonV, g: GatherV, model: Seq<char>, id: Seq<char>, created: i64) -> bool {
    &&& j.get("id"@) == Some(JsonV::Str(id))
    &&& j.get("object"@) == Some(JsonV::Str("chat.completion"@))
    &&& j.get("model"@) == Some(JsonV::Str(model))
    &&& j.get("created"@) == Some(json::int_json(created as int))
    &&& members::list_in(j, "choices"@).len() == 1
    &&& ({
        let c = members::list_in(j, "choices"@)[0];
        &&& c.get("finish_reason"@) == Some(
            JsonV::Str(
                if g.finish_reason == "pause_turn"@ {
                    "length"@
                } else {
                    g.finish_reason
                },
            ),
        )
        &&& members::inner(c, "message"@, "role"@) == Some(JsonV::Str("assistant"@))
        &&& members::inner(c, "message"@, "content"@) == Some(
            if g.full_text.len() > 0 {
                JsonV::Str(g.full_text)
            } else {
                JsonV::Null
            },
        )
        &&& members::inner(c, "message"@, "reasoning_content"@) == (if g.thinking.len() > 0 {
            Some(JsonV::Str(g.thinking))
        } else {
            None
        })
        &&& members::inner(c, "message"@, "tool_calls"@) == (if g.tool_calls.len() > 0 {
            Some(JsonV::Array(g.tool_calls))
        } else {
            None
        })
    })
    &&& forall|u: JsonV, input: int, output: int, cached: int|
        g.usage == Some(u) && #[trigger] reports(u, input, output, cached) ==> is_chat_usage(
            j,
            input,
            output,
            cached,
        )
}

/// Whether a completion tells these counts.
pub open spec fn is_chat_usage(j: JsonV, input: int, output: int, cached: int) -> bool {
    &&& members::inner(j, "usage"@, "prompt_tokens"@) == Some(json::int_json(input))
    &&& members::inner(j, "usage"@, "completion_tokens"@) == Some(json::int_json(output))
    &&& members::inner(j, "usage"@, "total_tokens"@) == Some(json::int_json(input + output))
    &&& j.get("usage"@) matches Some(u) && members::inner(u, "prompt_tokens_details"@, "cached_tokens"@) == Some(
        json::int_json(cached),
    )
}

/// The counts of a completion are read as they were set.
pub proof fn lemma_usage(input: i64, output: i64, cached: i64)
    requires
        numbers::is_exact(input as int),
        numbers::is_exact(output as int),
    ensures
        ({
            let u = crate::translate::chat::usage_json(input, output, cached);
            &&& u.get("prompt_tokens"@) == Some(json::int_json(input as int))
            &&& u.get("completion_tokens"@) == Some(json::int_json(output as int))
            &&& u.get("total_tokens"@) == Some(json::int_json(input + output))
            &&& members::inner(u, "prompt_tokens_details"@, "cached_tokens"@) == Some(json::int_json(cached as int))
        }),
{
    broadcast use members::group_reading;

    reveal_strlit("prompt_tokens");
    reveal_strlit("completion_tokens");
    reveal_strlit("total_tokens");
    reveal_strlit("prompt_tokens_details");
    reveal_strlit("cached_tokens");
    assert("prompt_tokens"@.len() == 13 && "completion_tokens"@.len() == 17 && "total_tokens"@.len() == 12);
    assert("prompt_tokens_details"@.len() == 21);
    assert("cached_tokens"@.len() == 13 && "cached_tokens"@[0] == 'c' && "prompt_tokens"@[0] == 'p');
    let a = JsonV::obj().with("prompt_tokens"@, json::int_json(input as int)).with(
        "completion_tokens"@,
        json::int_json(output as int),
    );
    assert(a.get("prompt_tokens"@) == Some(json::int_json(input as int)));
    assert(a.get("completion_tokens"@) == Some(json::int_json(output as int)));
}

proof fn lemma_completion(g: GatherV, model: Seq<char>, id: Seq<char>, created: i64)
    ensures
        is_completion(chat::completion(g, model, id, created), g, model, id, created),
{
    broadcast use members::group_reading;

    reveal_strlit("id");
    reveal_strlit("object");
    reveal_strlit("created");
    reveal_strlit("model");
    reveal_strlit("choices");
    reveal_strlit("usage");
    assert("id"@.len() == 2 && "object"@.len() == 6 && "created"@.len() == 7 && "model"@.len() == 5);
    assert("choices"@.len() == 7 && "usage"@.len() == 5 && "choices"@[1] == 'h' && "created"@[1] == 'r');
    assert("model"@[0] == 'm' && "usage"@[0] == 'u');
    reveal_strlit("index");
    reveal_strlit("message");
    reveal_strlit("finish_reason");
    assert("index"@.len() == 5 && "message"@.len() == 7 && "finish_reason"@.len() == 13);
    reveal_strlit("role");
    reveal_strlit("content");
    reveal_strlit("tool_calls");
    reveal_strlit("reasoning_content");
    assert("role"@.len() == 4 && "content"@.len() == 7 && "tool_calls"@.len() == 10);
    assert("reasoning_content"@.len() == 17);
    let j = chat::completion(g, model, id, created);
    let u = errors::usage_normal(
        match g.usage {
            Some(u) => u,
            None => JsonV::obj(),
        },
    );
    let m0 = JsonV::obj().with("role"@, JsonV::Str("assistant"@)).with(
        "content"@,
        if g.full_text.len() == 0 {
            JsonV::Null
        } else {
            JsonV::Str(g.full_text)
        },
    );
    assert(m0 is Object && m0.get("role"@) == Some(JsonV::Str("assistant"@)));
    let a = JsonV::obj().with("id"@, JsonV::Str(id)).with("object"@, JsonV::Str("chat.completion"@)).with(
        "created"@,
        json::int_json(created as int),
    ).with("model"@, JsonV::Str(model));
    assert(a is Object && a.get("id"@) == Some(JsonV::Str(id)) && a.get("object"@) == Some(
        JsonV::Str("chat.completion"@),
    ) && a.get("created"@) == Some(json::int_json(created as int)) && a.get("model"@) == Some(JsonV::Str(model)));
    let cs = members::list_in(j, "choices"@);
    assert(cs.len() == 1);
    assert forall|u: JsonV, input: int, output: int, cached: int|
        g.usage == Some(u) && #[trigger] reports(u, input, output, cached) implies is_chat_usage(
        j,
        input,
        output,
        cached,
    ) by {
        reports_are_taken_as_they_stand(u, input, output, cached);
        lemma_usage(input as i64, output as i64, cached as i64);
    }
}

/// What was gathered whole and with output is answered with its completion; nothing else is.
pub proof fn completions_say_it_all(g: GatherV, model: Seq<char>, id: Seq<char>, created: i64)
    ensures
        ({
            let r = chat::gathered_reply(g, model, id, created);
            let whole = g.upstream_error is None && g.saw_finish && g.finish_reason != "upstream_error"@;
            &&& whole && chat::reported_output(g) != 0 ==> r.status == 200 && exists|j: JsonV|
                r.body == json::json_text(j) && #[trigger] is_completion(j, g, model, id, created)
            &&& g.upstream_error is None && !whole ==> r.status == 502
            &&& whole && chat::reported_output(g) == 0 ==> r.status == 429
            &&& g.upstream_error matches Some(e) ==> r.status == e.status && r.body == json::json_text(e.body)
        }),
{
    lemma_completion(g, model, id, created);
    assert(is_completion(chat::completion(g, model, id, created), g, model, id, created));
}

// ── messages ───────────────────────────────────────────────────

/// Whether a block uses a tool as a call in the chat form does.
pub open spec fn is_use_of(b: JsonV, call: JsonV) -> bool {
    &&& b.get("type"@) == Some(JsonV::Str("tool_use"@))
    &&& call.get("id"@) is Some ==> b.get("id"@) == call.get("id"@)
    &&& members::inner(call, "function"@, "name"@) is Some ==> b.get("name"@) == members::inner(
        call,
        "function"@,
        "name"@,
    )
    &&& members::inner(call, "function"@, "arguments"@) matches Some(JsonV::Str(a)) ==> b.get("input"@) == (
    match json::json_parsed(a) {
        Some(j) => Some(j),
        None => Some(JsonV::obj()),
    })
}

/// Whether an answer is the message of what was gathered: its thinking, its text, its calls.
pub open spec fn is_message(
    j: JsonV,
    model: Seq<char>,
    text: Seq<char>,
    thinking: Seq<char>,
    calls: Seq<JsonV>,
) -> bool {
    let n: int = (if thinking.len() > 0 {
        1int
    } else {
        0
    }) + (if text.len() > 0 {
        1int
    } else {
        0
    });
    let bs = members::list_in(j, "content"@);
    &&& j.get("type"@) == Some(JsonV::Str("message"@))
    &&& j.get("role"@) == Some(JsonV::Str("assistant"@))
    &&& j.get("model"@) == Some(JsonV::Str(model))
    &&& bs.len() == n + calls.len()
    &&& thinking.len() > 0 ==> bs[0].get("type"@) == Some(JsonV::Str("thinking"@)) && bs[0].get("thinking"@) == Some(
        JsonV::Str(thinking),
    ) && bs[0].get("signature"@) == Some(JsonV::Str(errors::signature_of(thinking)))
    &&& text.len() > 0 ==> bs[n - 1].get("type"@) == Some(JsonV::Str("text"@)) && bs[n - 1].get("text"@) == Some(
        JsonV::Str(text),
    )
    &&& forall|i: int| 0 <= i < calls.len() ==> is_use_of(#[trigger] bs[n + i], calls[i])
}

/// Whether a message tells the counts of a report.
pub open spec fn tells_usage(j: JsonV, usage: Option<JsonV>) -> bool {
    forall|u: JsonV, input: int, output: int, cached: int|
        usage == Some(u) && #[trigger] reports(u, input, output, cached) ==> members::inner(
            j,
            "usage"@,
            "output_tokens"@,
        ) == Some(json::int_json(output)) && members::inner(j, "usage"@, "cache_read_input_tokens"@) == Some(
            json::int_json(cached),
        ) && members::inner(j, "usage"@, "input_tokens"@) == Some(
            json::int_json(errors::input_tokens_of(Some(u), None) as int),
        )
}

proof fn lemma_use(call: JsonV)
    ensures
        is_use_of(anthropic::call_block(call), call),
{
    broadcast use members::group_reading;

    reveal_strlit("type");
    reveal_strlit("id");
    reveal_strlit("name");
    reveal_strlit("input");
    assert("type"@.len() == 4 && "id"@.len() == 2 && "name"@.len() == 4 && "input"@.len() == 5);
    assert("name"@[0] == 'n' && "type"@[0] == 't');
    let a = JsonV::obj().with("type"@, JsonV::Str("tool_use"@)).with("id"@, call.or_null("id"@));
    assert(a.get("type"@) == Some(JsonV::Str("tool_use"@)) && a.get("id"@) == Some(call.or_null("id"@)));
}

/// A message that is no stream holds the text and the thinking to the character, and every call
/// with its identifier, its name and its arguments read.
pub proof fn messages_say_it_all(
    uuid: Seq<char>,
    model: Seq<char>,
    text: Seq<char>,
    calls: Seq<JsonV>,
    reason: Seq<char>,
    usage: Option<JsonV>,
    thinking: Seq<char>,
)
    ensures
        ({
            let j = anthropic::message_object(uuid, model, text, calls, reason, usage, thinking);
            &&& is_message(j, model, text, thinking, calls)
            &&& j.get("stop_reason"@) == Some(JsonV::Str(errors::stop_reason_of(reason)))
            &&& j.get("id"@) matches Some(JsonV::Str(id)) && id == "msg_"@ + util::short_id_text(uuid, 12)
            &&& tells_usage(j, usage)
        }),
{
    broadcast use members::group_reading;

    reveal_strlit("type");
    reveal_strlit("text");
    reveal_strlit("thinking");
    reveal_strlit("signature");
    assert("type"@.len() == 4 && "text"@.len() == 4 && "thinking"@.len() == 8 && "signature"@.len() == 9);
    assert("text"@[1] == 'e' && "type"@[1] == 'y');
    reveal_strlit("id");
    reveal_strlit("type");
    reveal_strlit("role");
    reveal_strlit("model");
    reveal_strlit("content");
    reveal_strlit("stop_reason");
    reveal_strlit("stop_sequence");
    reveal_strlit("usage");
    assert("id"@.len() == 2 && "type"@.len() == 4 && "role"@.len() == 4 && "model"@.len() == 5);
    assert("content"@.len() == 7 && "stop_reason"@.len() == 11 && "stop_sequence"@.len() == 13 && "usage"@.len() == 5);
    assert("model"@[0] == 'm' && "role"@[0] == 'r' && "type"@[0] == 't' && "usage"@[0] == 'u');
    reveal_strlit("input_tokens");
    reveal_strlit("output_tokens");
    reveal_strlit("cache_creation_input_tokens");
    reveal_strlit("cache_read_input_tokens");
    assert("input_tokens"@.len() == 12 && "output_tokens"@.len() == 13 && "cache_creation_input_tokens"@.len() == 27);
    assert("cache_read_input_tokens"@.len() == 23);
    let j = anthropic::message_object(uuid, model, text, calls, reason, usage, thinking);
    let bs = anthropic::message_blocks(text, thinking, calls);
    let id = JsonV::Str("msg_"@ + util::short_id_text(uuid, 12));
    let a = JsonV::obj().with("id"@, id).with("type"@, JsonV::Str("message"@)).with(
        "role"@,
        JsonV::Str("assistant"@),
    ).with("model"@, JsonV::Str(model)).with("content"@, JsonV::Array(bs));
    assert(a is Object && a.get("id"@) == Some(id) && a.get("type"@) == Some(JsonV::Str("message"@)) && a.get("role"@)
        == Some(JsonV::Str("assistant"@)) && a.get("model"@) == Some(JsonV::Str(model)) && a.get("content"@) == Some(
        JsonV::Array(bs),
    ));
    let b = a.with("stop_reason"@, JsonV::Str(errors::stop_reason_of(reason))).with("stop_sequence"@, JsonV::Null);
    assert(b is Object && b.get("id"@) == a.get("id"@) && b.get("type"@) == a.get("type"@) && b.get("role"@) == a.get(
        "role"@,
    ) && b.get("model"@) == a.get("model"@) && b.get("content"@) == a.get("content"@) && b.get("stop_reason"@) == Some(
        JsonV::Str(errors::stop_reason_of(reason)),
    ));
    assert(members::list_in(j, "content"@) == bs);
    let n: int = (if thinking.len() > 0 {
        1int
    } else {
        0
    }) + (if text.len() > 0 {
        1int
    } else {
        0
    });
    assert forall|i: int| 0 <= i < calls.len() implies is_use_of(#[trigger] bs[n + i], calls[i]) by {
        lemma_use(calls[i]);
        assert(bs[n + i] == anthropic::call_block(calls[i]));
    }
    assert forall|u: JsonV, input: int, output: int, cached: int|
        usage == Some(u) && #[trigger] reports(u, input, output, cached) implies members::inner(
        j,
        "usage"@,
        "output_tokens"@,
    ) == Some(json::int_json(output)) && members::inner(j, "usage"@, "cache_read_input_tokens"@) == Some(
        json::int_json(cached),
    ) && members::inner(j, "usage"@, "input_tokens"@) == Some(
        json::int_json(errors::input_tokens_of(Some(u), None) as int),
    ) by {
        reports_are_taken_as_they_stand(u, input, output, cached);
    }
}

/// Where nothing is reported, the output of a message is guessed from its length: one token for four
/// characters and twenty for a call, and at least one.
pub proof fn outputs_are_guessed(
    uuid: Seq<char>,
    model: Seq<char>,
    text: Seq<char>,
    calls: Seq<JsonV>,
    reason: Seq<char>,
    thinking: Seq<char>,
)
    requires
        text.len() + thinking.len() <= 0x1000_0000_0000,
        calls.len() <= 0x1000_0000_0000,
    ensures
        ({
            let j = anthropic::message_object(uuid, model, text, calls, reason, None, thinking);
            let n = (text.len() + thinking.len() + 3) / 4 + 20 * calls.len();
            members::inner(j, "usage"@, "output_tokens"@) == Some(
                json::int_json(
                    if n > 1 {
                        n as int
                    } else {
                        1
                    },
                ),
            )
        }),
{
    broadcast use members::group_reading;

    reveal_strlit("inputTokens");
    reveal_strlit("outputTokens");
    reveal_strlit("cachedInputTokens");
    assert("inputTokens"@.len() == 11 && "outputTokens"@.len() == 12 && "cachedInputTokens"@.len() == 17);
    reveal_strlit("id");
    reveal_strlit("type");
    reveal_strlit("role");
    reveal_strlit("model");
    reveal_strlit("content");
    reveal_strlit("stop_reason");
    reveal_strlit("stop_sequence");
    reveal_strlit("usage");
    assert("id"@.len() == 2 && "type"@.len() == 4 && "role"@.len() == 4 && "model"@.len() == 5);
    assert("content"@.len() == 7 && "stop_reason"@.len() == 11 && "stop_sequence"@.len() == 13 && "usage"@.len() == 5);
    assert("model"@[0] == 'm' && "role"@[0] == 'r' && "type"@[0] == 't' && "usage"@[0] == 'u');
    reveal_strlit("input_tokens");
    reveal_strlit("output_tokens");
    reveal_strlit("cache_creation_input_tokens");
    reveal_strlit("cache_read_input_tokens");
    assert("input_tokens"@.len() == 12 && "output_tokens"@.len() == 13 && "cache_creation_input_tokens"@.len() == 27);
    assert("cache_read_input_tokens"@.len() == 23);
    let o = JsonV::obj();
    reports_are_taken_as_they_stand(o, 0, 0, 0);
    assert(o.get("outputTokens"@) is None);
    let u = errors::usage_normal(o);
    assert(u.get("outputTokens"@) == o.get("outputTokens"@));
    assert(util::integer_or(u.get("outputTokens"@), 0) == 0);
}

/// What was gathered whole and with output is answered with its message; nothing else is.
pub proof fn whole_messages_are_answered(g: GatherV, model: Seq<char>, uuid: Seq<char>)
    ensures
        ({
            let r = messages::gathered_reply(g, model, uuid);
            let whole = g.upstream_error is None && g.saw_finish && g.finish_reason != "upstream_error"@;
            let empty = (g.full_text.len() == 0 && g.thinking.len() == 0 && g.tool_calls.len() == 0)
                || g.reports_no_output();
            &&& whole && !empty ==> r.status == 200 && exists|j: JsonV|
                r.body == json::json_text(j) && #[trigger] is_message(j, model, g.full_text, g.thinking, g.tool_calls)
                    && j.get("stop_reason"@) == Some(JsonV::Str(errors::stop_reason_of(g.finish_reason)))
                    && tells_usage(j, g.usage)
            &&& g.upstream_error is None && !whole ==> r.status == 502
            &&& whole && empty ==> r.status == 429
            &&& g.upstream_error matches Some(e) ==> r.status == e.status
        }),
{
    messages_say_it_all(uuid, model, g.full_text, g.tool_calls, g.finish_reason, g.usage, g.thinking);
    let j = anthropic::message_object(
        uuid,
        model,
        g.full_text,
        g.tool_calls,
        g.finish_reason,
        g.usage,
        g.thinking,
    );
    assert(is_message(j, model, g.full_text, g.thinking, g.tool_calls));
}

// ── responses ──────────────────────────────────────────────────

/// Whether an item is a call in the chat form.
pub open spec fn is_item_of(item: JsonV, call: JsonV) -> bool {
    &&& item.get("type"@) == Some(JsonV::Str("function_call"@))
    &&& item.get("status"@) == Some(JsonV::Str("completed"@))
    &&& call.get("id"@) is Some ==> item.get("call_id"@) == call.get("id"@)
    &&& members::inner(call, "function"@, "name"@) matches Some(JsonV::Str(n)) ==> item.get("name"@) == Some(
        JsonV::Str(n),
    )
    &&& members::inner(call, "function"@, "arguments"@) matches Some(JsonV::Str(a)) ==> item.get("arguments"@) == Some(
        JsonV::Str(a),
    )
}

/// Whether items are what was gathered: its reasoning, its text, its calls.
pub open spec fn are_items(items: Seq<JsonV>, text: Seq<char>, thinking: Seq<char>, calls: Seq<JsonV>) -> bool {
    let n: int = (if thinking.len() > 0 {
        1int
    } else {
        0
    }) + (if text.len() > 0 {
        1int
    } else {
        0
    });
    &&& items.len() == n + calls.len()
    &&& thinking.len() > 0 ==> items[0].get("type"@) == Some(JsonV::Str("reasoning"@))
        && crate::laws::response_stream::is_part(items[0].get("summary"@), "summary_text"@, thinking)
    &&& text.len() > 0 ==> items[n - 1].get("type"@) == Some(JsonV::Str("message"@)) && items[n - 1].get("role"@)
        == Some(JsonV::Str("assistant"@)) && crate::laws::response_stream::is_part(
        items[n - 1].get("content"@),
        "output_text"@,
        text,
    )
    &&& forall|i: int| 0 <= i < calls.len() ==> is_item_of(#[trigger] items[n + i], calls[i])
}

proof fn lemma_item(call: JsonV, uuid: Seq<char>)
    ensures
        is_item_of(responses::output_call(call, uuid), call),
{
    broadcast use members::group_reading;

    reveal_strlit("type");
    reveal_strlit("id");
    reveal_strlit("call_id");
    reveal_strlit("name");
    reveal_strlit("arguments");
    reveal_strlit("status");
    assert("type"@.len() == 4 && "id"@.len() == 2 && "call_id"@.len() == 7 && "name"@.len() == 4);
    assert("arguments"@.len() == 9 && "status"@.len() == 6 && "name"@[0] == 'n' && "type"@[0] == 't');
    let a = JsonV::obj().with("type"@, JsonV::Str("function_call"@)).with(
        "id"@,
        JsonV::Str(responses::id_of("fc_"@, uuid)),
    ).with("call_id"@, call.or_null("id"@));
    assert(a is Object && a.get("type"@) == Some(JsonV::Str("function_call"@)) && a.get("call_id"@) == Some(
        call.or_null("id"@),
    ));
}

/// The items of a response that is no stream hold the text and the reasoning to the character, and
/// every call with its identifier, its name and its arguments.
pub proof fn items_say_it_all(text: Seq<char>, thinking: Seq<char>, calls: Seq<JsonV>, ids: OutputIdsV)
    ensures
        are_items(responses::output_of(text, thinking, calls, ids), text, thinking, calls),
{
    broadcast use members::group_reading;

    reveal_strlit("type");
    reveal_strlit("id");
    reveal_strlit("summary");
    reveal_strlit("status");
    reveal_strlit("role");
    reveal_strlit("content");
    reveal_strlit("text");
    reveal_strlit("annotations");
    assert("type"@.len() == 4 && "id"@.len() == 2 && "summary"@.len() == 7 && "status"@.len() == 6);
    assert("role"@.len() == 4 && "content"@.len() == 7 && "text"@.len() == 4 && "annotations"@.len() == 11);
    assert("content"@[0] == 'c' && "role"@[0] == 'r' && "summary"@[0] == 's' && "text"@[0] == 't');
    assert("text"@[1] == 'e' && "type"@[0] == 't' && "type"@[1] == 'y');
    let items = responses::output_of(text, thinking, calls, ids);
    let n: int = (if thinking.len() > 0 {
        1int
    } else {
        0
    }) + (if text.len() > 0 {
        1int
    } else {
        0
    });
    if thinking.len() > 0 {
        let p = responses::summary_part(thinking);
        assert(p.get("type"@) == Some(JsonV::Str("summary_text"@)) && p.get("text"@) == Some(JsonV::Str(thinking)));
        let a = JsonV::obj().with("type"@, JsonV::Str("reasoning"@)).with(
            "id"@,
            JsonV::Str(responses::id_of("rs_"@, ids.reasoning)),
        );
        assert(a is Object && a.get("type"@) == Some(JsonV::Str("reasoning"@)));
        assert(items[0] == a.with("summary"@, JsonV::Array(seq![p])));
    }
    if text.len() > 0 {
        let p = responses::output_text_part(text);
        assert(p.get("type"@) == Some(JsonV::Str("output_text"@)) && p.get("text"@) == Some(JsonV::Str(text)));
        let a = JsonV::obj().with("type"@, JsonV::Str("message"@)).with(
            "id"@,
            JsonV::Str(responses::id_of("msg_"@, ids.message)),
        ).with("status"@, JsonV::Str("completed"@)).with("role"@, JsonV::Str("assistant"@));
        assert(a is Object && a.get("type"@) == Some(JsonV::Str("message"@)) && a.get("role"@) == Some(
            JsonV::Str("assistant"@),
        ));
        assert(items[n - 1] == a.with("content"@, JsonV::Array(seq![p])));
    }
    assert forall|i: int| 0 <= i < calls.len() implies is_item_of(#[trigger] items[n + i], calls[i]) by {
        lemma_item(calls[i], ids.calls[i]);
        assert(items[n + i] == responses::output_call(calls[i], ids.calls[i]));
    }
}

/// The counts of a response are those of the report; without a count of output the one that is
/// known takes its place.
pub proof fn response_counts_are_told(
    u: JsonV,
    input: int,
    output: int,
    cached: int,
    written: int,
    fallback: i64,
)
    ensures
        reports(u, input, output, cached) ==> ({
            let r = responses::responses_usage(Some(u), fallback);
            &&& r.get("input_tokens"@) == Some(json::int_json(input))
            &&& r.get("output_tokens"@) == Some(json::int_json(output))
            &&& r.get("total_tokens"@) == Some(json::int_json(input + output))
            &&& members::inner(r, "input_tokens_details"@, "cached_tokens"@) == Some(json::int_json(cached))
            &&& numbers::is_exact(written) && members::inner(u, "inputTokenDetails"@, "cacheWriteTokens"@) == Some(
                json::int_json(written),
            ) ==> members::inner(r, "input_tokens_details"@, "cache_write_tokens"@) == Some(json::int_json(written))
        }),
        responses::responses_usage(None, fallback).get("output_tokens"@) == Some(json::int_json(fallback as int)),
        responses::responses_usage(None, fallback).get("input_tokens"@) == Some(json::int_json(0)),
{
    broadcast use members::group_reading;

    reveal_strlit("input_tokens");
    reveal_strlit("input_tokens_details");
    reveal_strlit("output_tokens");
    reveal_strlit("output_tokens_details");
    reveal_strlit("total_tokens");
    assert("input_tokens"@.len() == 12 && "input_tokens_details"@.len() == 20 && "output_tokens"@.len() == 13);
    assert("output_tokens_details"@.len() == 21);
    assert("total_tokens"@.len() == 12 && "input_tokens"@[0] == 'i' && "total_tokens"@[0] == 't');
    reveal_strlit("cached_tokens");
    reveal_strlit("cache_write_tokens");
    assert("cached_tokens"@.len() == 13 && "cache_write_tokens"@.len() == 18);
    reveal_strlit("inputTokens");
    reveal_strlit("outputTokens");
    reveal_strlit("cachedInputTokens");
    assert("inputTokens"@.len() == 11 && "outputTokens"@.len() == 12 && "cachedInputTokens"@.len() == 17);
    numbers::integers_are_read(0, 0);
    if numbers::is_exact(written) {
        numbers::integers_are_read(written, 0);
    }
    if reports(u, input, output, cached) {
        reports_are_taken_as_they_stand(u, input, output, cached);
        assert(util::integer_or(u.get("inputTokens"@), 0).wrapping_add(util::integer_or(u.get("outputTokens"@), 0))
            == input + output);
    }
    let o = JsonV::obj();
    assert(o.get("outputTokens"@) is None);
    reports_are_taken_as_they_stand(o, 0, 0, 0);
    let n = errors::usage_normal(o);
    assert(n.get("outputTokens"@) == o.get("outputTokens"@));
    assert(util::integer_or(n.get("outputTokens"@), 0) == 0);
    assert(util::integer_or(n.get("inputTokens"@), 0) == 0);
}

/// Whether an answer is a response with these items.
pub open spec fn is_response(
    j: JsonV,
    id: Seq<char>,
    model: Seq<char>,
    created: i64,
    completed: i64,
    text: Seq<char>,
    items: Seq<JsonV>,
) -> bool {
    &&& j.get("id"@) == Some(JsonV::Str(id))
    &&& j.get("object"@) == Some(JsonV::Str("response"@))
    &&& j.get("model"@) == Some(JsonV::Str(model))
    &&& j.get("created_at"@) == Some(json::int_json(created as int))
    &&& j.get("completed_at"@) == Some(json::int_json(completed as int))
    &&& j.get("output"@) == Some(JsonV::Array(items))
    &&& j.get("output_text"@) == Some(JsonV::Str(text))
}

/// What a response repeats of the request.
pub open spec fn repeats(j: JsonV, opts: JsonV) -> bool {
    &&& opts.get("instructions"@) is Some ==> j.get("instructions"@) == opts.get("instructions"@)
    &&& opts.get("max_output_tokens"@) is Some ==> j.get("max_output_tokens"@) == opts.get("max_output_tokens"@)
    &&& opts.get("reasoning"@) is Some ==> j.get("reasoning"@) == opts.get("reasoning"@)
    &&& opts.get("tool_choice"@) is Some ==> j.get("tool_choice"@) == opts.get("tool_choice"@)
    &&& opts.get("tools"@) is Some ==> j.get("tools"@) == opts.get("tools"@)
    &&& opts.get("temperature"@) matches Some(v) ==> v != JsonV::Null ==> j.get("temperature"@) == Some(v)
    &&& opts.get("top_p"@) matches Some(v) ==> v != JsonV::Null ==> j.get("top_p"@) == Some(v)
}

/// A response that is no stream names itself, holds its items and its text, says whether it is
/// whole, tells its usage and repeats its request.
#[verifier::rlimit(60)]
pub proof fn responses_say_it_all(
    id: Seq<char>,
    model: Seq<char>,
    created: i64,
    completed: i64,
    text: Seq<char>,
    items: Seq<JsonV>,
    usage: Option<JsonV>,
    opts: JsonV,
)
    ensures
        ({
            let j = responses::response_object(id, model, created, completed, text, items, usage, opts);
            let cut = opts.get("finishReason"@) == Some(JsonV::Str("length"@)) || opts.get("finishReason"@) == Some(
                JsonV::Str("pause_turn"@),
            );
            &&& is_response(j, id, model, created, completed, text, items)
            &&& repeats(j, opts)
            &&& j.get("status"@) == Some(
                JsonV::Str(
                    if cut {
                        "incomplete"@
                    } else {
                        "completed"@
                    },
                ),
            )
            &&& opts.get("finishReason"@) == Some(JsonV::Str("length"@)) ==> members::inner(
                j,
                "incomplete_details"@,
                "reason"@,
            ) == Some(JsonV::Str("max_output_tokens"@))
            &&& !cut ==> j.get("incomplete_details"@) == Some(JsonV::Null)
            &&& j.get("usage"@) == Some(responses::responses_usage(usage, 0))
        }),
{
    broadcast use members::group_reading;

    reveal_strlit("id");
    reveal_strlit("object");
    reveal_strlit("created_at");
    reveal_strlit("status");
    reveal_strlit("completed_at");
    reveal_strlit("error");
    reveal_strlit("incomplete_details");
    reveal_strlit("input");
    reveal_strlit("instructions");
    reveal_strlit("max_output_tokens");
    reveal_strlit("model");
    reveal_strlit("output");
    reveal_strlit("output_text");
    reveal_strlit("parallel_tool_calls");
    reveal_strlit("previous_response_id");
    reveal_strlit("reasoning");
    reveal_strlit("store");
    reveal_strlit("temperature");
    reveal_strlit("text");
    reveal_strlit("tool_choice");
    reveal_strlit("tools");
    reveal_strlit("top_p");
    reveal_strlit("truncation");
    reveal_strlit("usage");
    reveal_strlit("user");
    reveal_strlit("metadata");
    assert("id"@.len() == 2 && "object"@.len() == 6 && "created_at"@.len() == 10 && "status"@.len() == 6);
    assert("completed_at"@.len() == 12 && "error"@.len() == 5 && "incomplete_details"@.len() == 18);
    assert("input"@.len() == 5);
    assert("instructions"@.len() == 12 && "max_output_tokens"@.len() == 17 && "model"@.len() == 5);
    assert("output"@.len() == 6);
    assert("output_text"@.len() == 11 && "parallel_tool_calls"@.len() == 19 && "previous_response_id"@.len() == 20);
    assert("reasoning"@.len() == 9);
    assert("store"@.len() == 5 && "temperature"@.len() == 11 && "text"@.len() == 4 && "tool_choice"@.len() == 11);
    assert("tools"@.len() == 5 && "top_p"@.len() == 5 && "truncation"@.len() == 10 && "usage"@.len() == 5);
    assert("user"@.len() == 4 && "metadata"@.len() == 8 && "completed_at"@[0] == 'c' && "created_at"@[0] == 'c');
    assert("error"@[0] == 'e' && "input"@[0] == 'i' && "instructions"@[0] == 'i' && "model"@[0] == 'm');
    assert("object"@[0] == 'o' && "object"@[1] == 'b' && "output"@[0] == 'o' && "output"@[1] == 'u');
    assert("output_text"@[0] == 'o' && "status"@[0] == 's' && "store"@[0] == 's' && "temperature"@[0] == 't');
    assert("temperature"@[1] == 'e' && "text"@[0] == 't' && "tool_choice"@[0] == 't' && "tool_choice"@[1] == 'o');
    assert("tools"@[0] == 't' && "tools"@[2] == 'o' && "top_p"@[0] == 't' && "top_p"@[2] == 'p');
    assert("truncation"@[0] == 't' && "usage"@[0] == 'u' && "user"@[0] == 'u');
    reveal_strlit("length");
    reveal_strlit("pause_turn");
    reveal_strlit("reason");
    assert("length"@.len() == 6 && "pause_turn"@.len() == 10 && "reason"@.len() == 6 && "length"@[0] == 'l');
    assert("reason"@[0] == 'r');
    reveal_strlit("");
    let reason = Some(opts.str_or("finishReason"@, ""@));
    assert(""@.len() == 0);
    let a = JsonV::obj().with("id"@, JsonV::Str(id)).with("object"@, JsonV::Str("response"@)).with(
        "created_at"@,
        json::int_json(created as int),
    ).with("status"@, JsonV::Str(responses::status_of(reason))).with(
        "completed_at"@,
        json::int_json(completed as int),
    ).with("error"@, JsonV::Null).with("incomplete_details"@, responses::incomplete_details(reason));
    assert(a is Object && a.get("id"@) == Some(JsonV::Str(id)) && a.get("object"@) == Some(JsonV::Str("response"@)));
    assert(a.get("created_at"@) == Some(json::int_json(created as int)));
    assert(a.get("completed_at"@) == Some(json::int_json(completed as int)));
    assert(a.get("status"@) == Some(JsonV::Str(responses::status_of(reason))));
    assert(a.get("incomplete_details"@) == Some(responses::incomplete_details(reason)));
    let b = a.with("input"@, responses::member_or(opts, "input"@, JsonV::Array(Seq::empty()))).with(
        "instructions"@,
        opts.or_null("instructions"@),
    ).with("max_output_tokens"@, opts.or_null("max_output_tokens"@)).with("model"@, JsonV::Str(model)).with(
        "output"@,
        JsonV::Array(items),
    ).with("output_text"@, JsonV::Str(text));
    assert(b is Object && b.get("id"@) == a.get("id"@) && b.get("object"@) == a.get("object"@) && b.get("created_at"@)
        == a.get("created_at"@) && b.get("completed_at"@) == a.get("completed_at"@) && b.get("status"@) == a.get(
        "status"@,
    ) && b.get("incomplete_details"@) == a.get("incomplete_details"@));
    assert(b.get("instructions"@) == Some(opts.or_null("instructions"@)));
    assert(b.get("max_output_tokens"@) == Some(opts.or_null("max_output_tokens"@)));
    assert(b.get("model"@) == Some(JsonV::Str(model)));
    assert(b.get("output"@) == Some(JsonV::Array(items)));
    assert(b.get("output_text"@) == Some(JsonV::Str(text)));
    let c = b.with("parallel_tool_calls"@, JsonV::Bool(true)).with("previous_response_id"@, JsonV::Null).with(
        "reasoning"@,
        opts.or_null("reasoning"@),
    ).with("store"@, JsonV::Bool(false)).with(
        "temperature"@,
        responses::nonnull_or(opts, "temperature"@, json::int_json(1)),
    ).with("text"@, JsonV::obj().with("format"@, JsonV::obj().with("type"@, JsonV::Str("text"@))));
    assert(c is Object && c.get("id"@) == a.get("id"@) && c.get("object"@) == a.get("object"@) && c.get("created_at"@)
        == a.get("created_at"@) && c.get("completed_at"@) == a.get("completed_at"@) && c.get("status"@) == a.get(
        "status"@,
    ) && c.get("incomplete_details"@) == a.get("incomplete_details"@));
    assert(c.get("instructions"@) == b.get("instructions"@) && c.get("max_output_tokens"@) == b.get(
        "max_output_tokens"@,
    ) && c.get("model"@) == b.get("model"@) && c.get("output"@) == b.get("output"@) && c.get("output_text"@) == b.get(
        "output_text"@,
    ));
    assert(c.get("reasoning"@) == Some(opts.or_null("reasoning"@)));
    assert(c.get("temperature"@) == Some(responses::nonnull_or(opts, "temperature"@, json::int_json(1))));
    let d = c.with("tool_choice"@, responses::member_or(opts, "tool_choice"@, JsonV::Str("auto"@))).with(
        "tools"@,
        responses::member_or(opts, "tools"@, JsonV::Array(Seq::empty())),
    ).with("top_p"@, responses::nonnull_or(opts, "top_p"@, json::int_json(1))).with(
        "truncation"@,
        JsonV::Str("disabled"@),
    );
    assert(d is Object && d.get("id"@) == a.get("id"@) && d.get("object"@) == a.get("object"@) && d.get("created_at"@)
        == a.get("created_at"@) && d.get("completed_at"@) == a.get("completed_at"@) && d.get("status"@) == a.get(
        "status"@,
    ) && d.get("incomplete_details"@) == a.get("incomplete_details"@));
    assert(d.get("instructions"@) == b.get("instructions"@) && d.get("max_output_tokens"@) == b.get(
        "max_output_tokens"@,
    ) && d.get("model"@) == b.get("model"@) && d.get("output"@) == b.get("output"@) && d.get("output_text"@) == b.get(
        "output_text"@,
    ) && d.get("reasoning"@) == c.get("reasoning"@) && d.get("temperature"@) == c.get("temperature"@));
    assert(d.get("tool_choice"@) == Some(responses::member_or(opts, "tool_choice"@, JsonV::Str("auto"@))));
    assert(d.get("tools"@) == Some(responses::member_or(opts, "tools"@, JsonV::Array(Seq::empty()))));
    assert(d.get("top_p"@) == Some(responses::nonnull_or(opts, "top_p"@, json::int_json(1))));
    let e = d.with("usage"@, responses::responses_usage(usage, 0)).with("user"@, JsonV::Null).with(
        "metadata"@,
        JsonV::obj(),
    );
    assert(e == responses::response_object(id, model, created, completed, text, items, usage, opts));
    assert(responses::incomplete_details(reason) is Object ==> responses::is_partial(reason));
}

/// What was gathered whole and with output is answered with its response; nothing else is.
pub proof fn whole_responses_are_answered(
    g: GatherV,
    id: Seq<char>,
    model: Seq<char>,
    created: i64,
    echo: JsonV,
    completed: i64,
    ids: OutputIdsV,
)
    requires
        echo is Object,
    ensures
        ({
            let r = response_handlers::gathered_reply(g, id, model, created, echo, completed, ids);
            let whole = g.upstream_error is None && g.saw_finish && g.finish_reason != "upstream_error"@;
            let empty = (g.full_text.len() == 0 && g.thinking.len() == 0 && g.tool_calls.len() == 0)
                || g.reports_no_output();
            &&& whole && !empty ==> r.status == 200 && exists|j: JsonV, items: Seq<JsonV>|
                r.body == json::json_text(j) && #[trigger] is_response(
                    j,
                    id,
                    model,
                    created,
                    completed,
                    g.full_text,
                    items,
                ) && are_items(items, g.full_text, g.thinking, g.tool_calls) && repeats(j, echo) && j.get("status"@)
                    == Some(
                    JsonV::Str(
                        if g.finish_reason == "length"@ || g.finish_reason == "pause_turn"@ {
                            "incomplete"@
                        } else {
                            "completed"@
                        },
                    ),
                ) && j.get("usage"@) == Some(responses::responses_usage(g.usage, 0))
            &&& g.upstream_error is None && !whole ==> r.status == 502
            &&& whole && empty ==> r.status == 429
            &&& g.upstream_error matches Some(e) ==> r.status == e.status
        }),
{
    broadcast use members::group_reading;

    let items = responses::output_of(g.full_text, g.thinking, g.tool_calls, ids);
    let opts = echo.with("finishReason"@, JsonV::Str(g.finish_reason));
    items_say_it_all(g.full_text, g.thinking, g.tool_calls, ids);
    responses_say_it_all(id, model, created, completed, g.full_text, items, g.usage, opts);
    let j = responses::response_object(id, model, created, completed, g.full_text, items, g.usage, opts);
    assert(is_response(j, id, model, created, completed, g.full_text, items));
    reveal_strlit("finishReason");
    reveal_strlit("instructions");
    reveal_strlit("max_output_tokens");
    reveal_strlit("reasoning");
    reveal_strlit("tool_choice");
    reveal_strlit("tools");
    reveal_strlit("temperature");
    reveal_strlit("top_p");
    assert("finishReason"@.len() == 12 && "instructions"@.len() == 12 && "max_output_tokens"@.len() == 17);
    assert("reasoning"@.len() == 9);
    assert("tool_choice"@.len() == 11 && "tools"@.len() == 5 && "temperature"@.len() == 11 && "top_p"@.len() == 5);
    assert("finishReason"@[0] == 'f' && "instructions"@[0] == 'i' && "temperature"@[1] == 'e');
    assert("tool_choice"@[1] == 'o');
    assert("tools"@[2] == 'o' && "top_p"@[2] == 'p');
}

/// A response repeats what its request says of instructions, limits, tools and sampling.
pub proof fn requests_are_repeated(req: JsonV)
    ensures
        ({
            let e = response_handlers::echo_of(req);
            &&& e is Object
            &&& e.get("instructions"@) == Some(req.or_null("instructions"@))
            &&& e.get("max_output_tokens"@) == Some(req.or_null("max_output_tokens"@))
            &&& e.get("temperature"@) == req.get("temperature"@)
            &&& e.get("top_p"@) == req.get("top_p"@)
            &&& e.get("tool_choice"@) == Some(JsonV::Str(members::text_or(req, "tool_choice"@, "auto"@)))
            &&& req.get("reasoning"@) matches Some(v) ==> said::counts(v) ==> e.get("reasoning"@) == Some(v)
            &&& req.get("tools"@) matches Some(v) ==> said::counts(v) ==> e.get("tools"@) == Some(v)
        }),
{
    broadcast use members::group_reading;

    reveal_strlit("instructions");
    reveal_strlit("max_output_tokens");
    reveal_strlit("temperature");
    reveal_strlit("top_p");
    reveal_strlit("reasoning");
    reveal_strlit("tool_choice");
    reveal_strlit("tools");
    assert("instructions"@.len() == 12 && "max_output_tokens"@.len() == 17 && "temperature"@.len() == 11);
    assert("top_p"@.len() == 5);
    assert("reasoning"@.len() == 9 && "tool_choice"@.len() == 11 && "tools"@.len() == 5 && "temperature"@[1] == 'e');
    assert("tool_choice"@[1] == 'o' && "tools"@[2] == 'o' && "top_p"@[2] == 'p');
    if let Some(v) = req.get("reasoning"@) {
        said::what_counts_is_true(v);
    }
    if let Some(v) = req.get("tools"@) {
        said::what_counts_is_true(v);
    }
    let a = JsonV::obj().with("instructions"@, req.or_null("instructions"@)).with(
        "max_output_tokens"@,
        req.or_null("max_output_tokens"@),
    );
    assert(a is Object && a.get("instructions"@) == Some(req.or_null("instructions"@)) && a.get("max_output_tokens"@)
        == Some(req.or_null("max_output_tokens"@)) && a.get("temperature"@) is None && a.get("top_p"@) is None);
    let b = a.with_some("temperature"@, req.get("temperature"@)).with_some("top_p"@, req.get("top_p"@));
    assert(b is Object && b.get("instructions"@) == a.get("instructions"@) && b.get("max_output_tokens"@) == a.get(
        "max_output_tokens"@,
    ) && b.get("temperature"@) == req.get("temperature"@) && b.get("top_p"@) == req.get("top_p"@));
}

} // verus!
