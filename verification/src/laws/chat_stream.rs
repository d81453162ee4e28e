//! A stream of chat chunks says what the upstream says.

use vstd::prelude::*;
use crate::errors;
use crate::json;
use crate::json::JsonV;
use crate::laws::events as said;
use crate::laws::members;
use crate::text;
use crate::translate::chat::ChatV;
use crate::translate::chat;
use crate::translate::events;

verus! {

/// The one choice in a chunk.
pub open spec fn choice(chunk: JsonV) -> JsonV {
    members::list_in(chunk, "choices"@)[0]
}

/// What a chunk adds to a member of the message.
pub open spec fn added(chunk: JsonV, member: Seq<char>) -> Seq<char> {
    match members::inner(choice(chunk), "delta"@, member) {
        Some(JsonV::Str(s)) => s,
        _ => Seq::empty(),
    }
}

/// What chunks add to a member of the message, put together as a client does.
pub open spec fn joined(chunks: Seq<JsonV>, member: Seq<char>) -> Seq<char>
    decreases chunks.len(),
{
    if chunks.len() == 0 {
        Seq::empty()
    } else {
        joined(chunks.drop_last(), member) + added(chunks.last(), member)
    }
}

/// The calls that chunks tell.
pub open spec fn told(chunks: Seq<JsonV>) -> Seq<JsonV>
    decreases chunks.len(),
{
    if chunks.len() == 0 {
        Seq::empty()
    } else {
        told(chunks.drop_last()) + told_in(chunks.last())
    }
}

/// The calls that a chunk tells.
pub open spec fn told_in(chunk: JsonV) -> Seq<JsonV> {
    match members::inner(choice(chunk), "delta"@, "tool_calls"@) {
        Some(JsonV::Array(v)) => v,
        _ => Seq::empty(),
    }
}

/// Whether a call that a client is told is one that the upstream made: with its identifier where
/// that has one, its name and its input.
pub open spec fn is_call_of(c: JsonV, e: JsonV) -> bool {
    &&& c.get("type"@) == Some(JsonV::Str("function"@))
    &&& members::inner(c, "function"@, "name"@) == Some(JsonV::Str(members::text_or(e, "toolName"@, Seq::empty())))
    &&& members::inner(c, "function"@, "arguments"@) matches Some(JsonV::Str(a)) && said::is_input_of(a, e)
    &&& e.get("toolCallId"@) matches Some(JsonV::Str(id)) ==> id.len() > 0 ==> c.get("id"@) == Some(JsonV::Str(id))
    &&& c.get("id"@) matches Some(JsonV::Str(id)) && id.len() > 0
}

proof fn lemma_chunk(t: ChatV, delta: JsonV, fr: Option<Seq<char>>, usage: Option<JsonV>)
    ensures
        ({
            let c = t.chunk(delta, fr, usage);
            &&& members::list_in(c, "choices"@).len() == 1
            &&& choice(c).get("delta"@) == Some(delta)
            &&& choice(c).get("finish_reason"@) == Some(
                match fr {
                    Some(f) => JsonV::Str(f),
                    None => JsonV::Null,
                },
            )
            &&& c.get("usage"@) == usage
            &&& c.get("object"@) == Some(JsonV::Str("chat.completion.chunk"@))
        }),
{
    broadcast use members::group_reading;

    reveal_strlit("id");
    reveal_strlit("object");
    reveal_strlit("created");
    reveal_strlit("model");
    reveal_strlit("choices");
    reveal_strlit("usage");
    reveal_strlit("index");
    reveal_strlit("delta");
    reveal_strlit("finish_reason");
    assert("id"@.len() == 2 && "object"@.len() == 6 && "created"@.len() == 7 && "model"@.len() == 5);
    assert("choices"@.len() == 7 && "usage"@.len() == 5 && "index"@.len() == 5 && "delta"@.len() == 5);
    assert("finish_reason"@.len() == 13 && "choices"@[1] == 'h' && "created"@[1] == 'r' && "delta"@[0] == 'd');
    assert("index"@[0] == 'i' && "model"@[0] == 'm' && "usage"@[0] == 'u');
    let a = JsonV::obj().with("id"@, JsonV::Str(t.completion_id)).with(
        "object"@,
        JsonV::Str("chat.completion.chunk"@),
    ).with("created"@, json::int_json(t.created as int)).with("model"@, JsonV::Str(t.model));
    assert(a.get("object"@) == Some(JsonV::Str("chat.completion.chunk"@)));
    assert(a.get("usage"@) is None);
}

proof fn lemma_added(t: ChatV, delta: JsonV, fr: Option<Seq<char>>, usage: Option<JsonV>, member: Seq<char>)
    ensures
        added(t.chunk(delta, fr, usage), member) == members::text_or(delta, member, Seq::empty()),
        told_in(t.chunk(delta, fr, usage)) == members::list_in(delta, "tool_calls"@),
{
    lemma_chunk(t, delta, fr, usage);
}

proof fn lemma_one(c: JsonV, member: Seq<char>)
    ensures
        joined(seq![c], member) == added(c, member),
        told(seq![c]) == told_in(c),
        joined(Seq::empty(), member) == Seq::<char>::empty(),
        told(Seq::empty()) == Seq::<JsonV>::empty(),
{
    assert(seq![c].drop_last() =~= Seq::<JsonV>::empty());
    assert(joined(Seq::empty(), member) =~= Seq::<char>::empty());
    assert(told(Seq::empty()) =~= Seq::<JsonV>::empty());
    assert(joined(seq![c], member) =~= added(c, member));
    assert(told(seq![c]) =~= told_in(c));
}

proof fn lemma_text_delta(t: ChatV, m: Seq<char>, x: Seq<char>)
    requires
        m == "content"@ || m == "reasoning_content"@,
    ensures
        ({
            let d = t.fresh_delta().with(m, JsonV::Str(x));
            &&& d.get(m) == Some(JsonV::Str(x))
            &&& m == "content"@ ==> d.get("reasoning_content"@) is None
            &&& m == "reasoning_content"@ ==> d.get("content"@) is None
            &&& d.get("tool_calls"@) is None
        }),
        "content"@ != "reasoning_content"@,
{
    broadcast use members::group_reading;

    reveal_strlit("role");
    reveal_strlit("content");
    reveal_strlit("reasoning_content");
    reveal_strlit("tool_calls");
    assert("role"@.len() == 4 && "content"@.len() == 7 && "reasoning_content"@.len() == 17);
    assert("tool_calls"@.len() == 10);
    assert(t.fresh_delta() is Object);
    assert(t.fresh_delta().get("content"@) is None);
    assert(t.fresh_delta().get("reasoning_content"@) is None);
    assert(t.fresh_delta().get("tool_calls"@) is None);
}

proof fn lemma_call_delta(t: ChatV, e: JsonV, now: i64)
    ensures
        ({
            let c = t.on_call(e, now).chunks[0];
            &&& t.on_call(e, now).chunks.len() == 1
            &&& added(c, "content"@).len() == 0
            &&& added(c, "reasoning_content"@).len() == 0
            &&& told_in(c).len() == 1
            &&& is_call_of(told_in(c)[0], e)
        }),
{
    broadcast use members::group_reading;

    reveal_strlit("role");
    reveal_strlit("content");
    reveal_strlit("reasoning_content");
    reveal_strlit("tool_calls");
    reveal_strlit("index");
    reveal_strlit("id");
    reveal_strlit("type");
    reveal_strlit("function");
    reveal_strlit("name");
    reveal_strlit("arguments");
    assert("role"@.len() == 4 && "content"@.len() == 7 && "reasoning_content"@.len() == 17);
    assert("tool_calls"@.len() == 10);
    assert("index"@.len() == 5 && "id"@.len() == 2 && "type"@.len() == 4 && "function"@.len() == 8);
    assert("name"@.len() == 4 && "arguments"@.len() == 9 && "name"@[0] == 'n' && "role"@[0] == 'r');
    assert("type"@[0] == 't');
    reveal_strlit("");
    reveal_strlit("call_");
    assert(""@ =~= Seq::<char>::empty());
    let id = t.call_id(e, now);
    let call = JsonV::obj().with("index"@, json::int_json(t.tool_call_index as int)).with("id"@, JsonV::Str(id)).with(
        "type"@,
        JsonV::Str("function"@),
    ).with(
        "function"@,
        JsonV::obj().with("name"@, JsonV::Str(e.str_or("toolName"@, ""@))).with(
            "arguments"@,
            JsonV::Str(events::arguments_of(e)),
        ),
    );
    let begin = if t.chunk_index == 0 {
        t.fresh_delta().with("content"@, JsonV::Null)
    } else {
        t.fresh_delta()
    };
    let d = begin.with("tool_calls"@, JsonV::Array(seq![call]));
    assert(begin is Object);
    assert(begin.get("reasoning_content"@) is None);
    assert(begin.get("content"@) is None || begin.get("content"@) == Some(JsonV::Null));
    assert(d.get("tool_calls"@) == Some(JsonV::Array(seq![call])));
    lemma_added(t, d, None, None, "content"@);
    lemma_added(t, d, None, None, "reasoning_content"@);
    said::inputs_are_handed_on(e);
    assert(call.get("id"@) == Some(JsonV::Str(id)));
    assert(call.get("type"@) == Some(JsonV::Str("function"@)));
    assert(id.len() > 0);
}

proof fn lemma_step(t: ChatV, e: JsonV, now: i64)
    requires
        e.get("type"@) matches Some(JsonV::Str(_)),
    ensures
        ({
            let cs = t.step(e, now).chunks;
            let ty = e.get("type"@);
            &&& cs.len() <= 1
            &&& joined(cs, "content"@) == (if ty == Some(JsonV::Str("text-delta"@)) {
                said::said(e)
            } else {
                Seq::empty()
            })
            &&& joined(cs, "reasoning_content"@) == (if ty == Some(JsonV::Str("reasoning-delta"@)) {
                members::plain(e.get("text"@))
            } else {
                Seq::empty()
            })
            &&& ty == Some(JsonV::Str("tool-call"@)) ==> told(cs).len() == 1 && is_call_of(told(cs)[0], e)
            &&& ty != Some(JsonV::Str("tool-call"@)) ==> told(cs).len() == 0
        }),
{
    reveal_strlit("");
    said::lemma_types();
    said::event_texts_are_as_said(e);
    let ty = events::type_of(e);
    let s = ChatV { last_cc_event: ty, ..t };
    let cs = t.step(e, now).chunks;
    lemma_one(cs[0], "content"@);
    lemma_one(cs[0], "reasoning_content"@);
    reveal_strlit("text-delta");
    reveal_strlit("reasoning-delta");
    reveal_strlit("tool-call");
    if ty == "text-delta"@ || ty == "reasoning-delta"@ {
        let m = if ty == "text-delta"@ {
            "content"@
        } else {
            "reasoning_content"@
        };
        let x = if ty == "text-delta"@ {
            events::delta_text_of(e)
        } else {
            events::event_text_of(e)
        };
        lemma_text_delta(s, m, x);
        let d = s.fresh_delta().with(m, JsonV::Str(x));
        lemma_added(s, d, None, None, "content"@);
        lemma_added(s, d, None, None, "reasoning_content"@);
        if x.len() > 0 {
            assert(cs =~= seq![s.chunk(d, None, None)]);
        } else {
            assert(cs =~= Seq::<JsonV>::empty());
            assert(x =~= Seq::<char>::empty());
        }
    } else if ty == "tool-call"@ {
        lemma_call_delta(s, e, now);
        assert(cs =~= seq![cs[0]]);
        assert(added(cs[0], "content"@) =~= Seq::<char>::empty());
        assert(added(cs[0], "reasoning_content"@) =~= Seq::<char>::empty());
    } else if ty == "finish"@ {
        broadcast use members::group_reading;

        let d = JsonV::obj();
        let next = s.on_finish(e).next;
        let fr = Some(errors::openai_reason(s.final_reason(e)));
        let u = Some(chat::usage_json(next.input_tokens, next.output_tokens, next.cached_input_tokens));
        assert(cs =~= seq![s.chunk(d, fr, u)]);
        lemma_added(s, d, fr, u, "content"@);
        lemma_added(s, d, fr, u, "reasoning_content"@);
    } else {
        assert(cs =~= Seq::<JsonV>::empty());
    }
}

proof fn lemma_joined_sum(a: Seq<JsonV>, b: Seq<JsonV>, m: Seq<char>)
    ensures
        joined(a + b, m) == joined(a, m) + joined(b, m),
        told(a + b) == told(a) + told(b),
    decreases b.len(),
{
    if b.len() == 0 {
        assert(a + b =~= a);
        assert(joined(a, m) + joined(b, m) =~= joined(a, m));
        assert(told(a) + told(b) =~= told(a));
    } else {
        assert((a + b).drop_last() =~= a + b.drop_last());
        lemma_joined_sum(a, b.drop_last(), m);
        assert(joined(a + b, m) =~= joined(a, m) + joined(b, m));
        assert(told(a + b) =~= told(a) + told(b));
    }
}

/// Over any lines, what a client joins of the content is, to the character, what the text events
/// say, and what it joins of the reasoning what the reasoning events say; and it is told the
/// tool calls of the upstream, all of them and in their order.
pub proof fn clients_read_what_is_said(t: ChatV, lines: Seq<Seq<char>>, times: Seq<i64>)
    ensures
        ({
            let cs = t.fed(lines, times).chunks;
            let calls = said::calls_by(lines, true);
            &&& joined(cs, "content"@) == said::said_by(lines, true, "text-delta"@)
            &&& joined(cs, "reasoning_content"@) == said::said_by(lines, true, "reasoning-delta"@)
            &&& told(cs).len() == calls.len()
            &&& forall|i: int| 0 <= i < calls.len() ==> is_call_of(#[trigger] told(cs)[i], calls[i])
        }),
    decreases lines.len(),
{
    if lines.len() == 0 {
        lemma_one(JsonV::Null, "content"@);
        lemma_one(JsonV::Null, "reasoning_content"@);
    } else {
        clients_read_what_is_said(t, lines.drop_last(), times);
        let before = t.fed(lines.drop_last(), times);
        let last = before.next.line(lines.last(), times[lines.len() - 1]);
        lemma_joined_sum(before.chunks, last.chunks, "content"@);
        lemma_joined_sum(before.chunks, last.chunks, "reasoning_content"@);
        said::lemma_types();
        said::other_lines_are_none(lines.last(), true);
        match events::event_in(lines.last(), true) {
            Some(e) => {
                lemma_step(before.next, e, times[lines.len() - 1]);
            },
            None => {
                lemma_one(JsonV::Null, "content"@);
                lemma_one(JsonV::Null, "reasoning_content"@);
            },
        }
    }
}

/// Calls that the upstream gives no identifier are told apart: at one time, each call of a stream
/// has an identifier of its own.
pub proof fn fresh_identifiers_differ(a: ChatV, b: ChatV, e: JsonV, f: JsonV, now: i64)
    requires
        !(e.get("toolCallId"@) matches Some(JsonV::Str(_))),
        !(f.get("toolCallId"@) matches Some(JsonV::Str(_))),
        a.tool_call_index != b.tool_call_index,
    ensures
        a.call_id(e, now) != b.call_id(f, now),
{
    let front = "call_"@ + text::decimal_int(now.wrapping_mul(1000) as int) + "_"@;
    let x = text::decimal(a.tool_call_index as nat);
    let y = text::decimal(b.tool_call_index as nat);
    text::decimals_are_read_back(a.tool_call_index as nat);
    text::decimals_are_read_back(b.tool_call_index as nat);
    if a.call_id(e, now) == b.call_id(f, now) {
        assert((front + x).skip(front.len() as int) =~= x);
        assert((front + y).skip(front.len() as int) =~= y);
    }
}

} // verus!
