//! How a stream ends is told as the upstream tells it.

use vstd::prelude::*;
use crate::errors;
use crate::json;
use crate::json::JsonV;
use crate::laws::answers;
use crate::laws::events as said;
use crate::laws::failures;
use crate::laws::members;
use crate::laws::numbers;
use crate::text;
use crate::translate::anthropic;
use crate::translate::anthropic::{AnthropicV, FrameV};
use crate::translate::chat::ChatV;
use crate::translate::events;
use crate::translate::responses;
use crate::translate::responses::{EventV, ItemKind, ResponsesV};

verus! {

/// A reason that stands for nothing else stays as it is, in lower case and without the white space
/// around it; no reason at all is the usual one.
pub proof fn other_reasons_stay(reason: Seq<char>)
    ensures
        ({
            let r = text::lowercase(text::trimmed(reason));
            &&& r.len() == 0 ==> errors::finish_reason_of(reason) == "stop"@
            &&& r.len() > 0 && r.last() != 'r' && r != "tool-calls"@ && r != "tool_calls"@ && r != "tool_use"@ && r
                != "length"@ && r != "max_tokens"@ && r != "max_output_tokens"@ && r != "model_context_window_exceeded"@
                ==> errors::finish_reason_of(reason) == r
        }),
{
    let r = text::lowercase(text::trimmed(reason));
    if r.len() > 0 && r.last() != 'r' {
        lemma_no_failure(r, "network"@);
        lemma_no_failure(r, "connection"@);
        lemma_no_failure(r, "upstream"@);
    }
}

proof fn lemma_no_failure(r: Seq<char>, p: Seq<char>)
    requires
        r.len() > 0,
        r.last() != 'r',
    ensures
        !errors::failure_of(r, p),
{
    reveal_strlit("error");
    if let Some(rest) = text::after_prefix(r, p) {
        if rest == "error"@ {
            assert(rest.last() == r.last());
        } else if rest.len() > 0 && rest.skip(1) == "error"@ {
            assert(rest.skip(1).last() == rest.last());
            assert(rest.last() == r.last());
        }
    }
}

/// Errors of the network, of the connection and of the upstream are failed connections.
pub proof fn connection_errors_are_failures(p: Seq<char>, between: Seq<char>)
    requires
        p == "network"@ || p == "connection"@ || p == "upstream"@,
        between.len() == 0 || (between.len() == 1 && (between[0] == '-' || between[0] == '_' || between[0] == ' ')),
    ensures
        errors::network_failure(p + between + "error"@),
{
    reveal_strlit("error");
    let r = p + between + "error"@;
    assert(r.take(p.len() as int) =~= p);
    let rest = r.skip(p.len() as int);
    if between.len() == 0 {
        assert(rest =~= "error"@);
    } else {
        assert(rest[0] == between[0]);
        assert(rest.skip(1) =~= "error"@);
    }
}

/// The reason for the end of a message as its clients know it.
pub proof fn stop_reasons_are_known(reason: Seq<char>)
    ensures
        reason == "tool_calls"@ ==> errors::stop_reason_of(reason) == "tool_use"@,
        reason == "length"@ ==> errors::stop_reason_of(reason) == "max_tokens"@,
        reason == "pause_turn"@ || reason == "refusal"@ ==> errors::stop_reason_of(reason) == reason,
        reason != "tool_calls"@ && reason != "length"@ && reason != "pause_turn"@ && reason != "refusal"@
            ==> errors::stop_reason_of(reason) == "end_turn"@,
        reason == "pause_turn"@ ==> errors::openai_reason(reason) == "length"@,
        reason != "pause_turn"@ ==> errors::openai_reason(reason) == reason,
{
    reveal_strlit("tool_calls");
    reveal_strlit("length");
    reveal_strlit("pause_turn");
    reveal_strlit("refusal");
    assert("tool_calls"@.len() == 10 && "length"@.len() == 6 && "pause_turn"@.len() == 10 && "refusal"@.len() == 7);
    assert("pause_turn"@[0] == 'p' && "tool_calls"@[0] == 't');
}

/// The reason as a chat client reads it.
pub open spec fn as_chat_reason(r: Seq<char>) -> Seq<char> {
    if r == "pause_turn"@ {
        "length"@
    } else {
        r
    }
}

/// The end of a chat stream is one chunk, with the reason of an earlier step, else with that of
/// the end, and with the total counts, else with those of the step.
pub proof fn chat_ends_are_told(t: ChatV, e: JsonV, now: i64, u: JsonV, input: int, output: int, cached: int)
    requires
        e.get("type"@) == Some(JsonV::Str("finish"@)),
    ensures
        ({
            let s = t.step(e, now);
            let c = s.chunks[0];
            &&& s.chunks.len() == 1
            &&& s.next.saw_finish
            &&& members::list_in(c, "choices"@).len() == 1 && members::list_in(c, "choices"@)[0].get("finish_reason"@)
                == Some(
                JsonV::Str(
                    as_chat_reason(
                        match t.finish_reason {
                            Some(r) => r,
                            None => errors::finish_reason_of(members::text_or(e, "finishReason"@, "stop"@)),
                        },
                    ),
                ),
            )
            &&& answers::reports(u, input, output, cached) && (e.get("totalUsage"@) == Some(u) || (t.usage == Some(u)
                && !(e.get("totalUsage"@) matches Some(JsonV::Object(_))))) ==> answers::is_chat_usage(
                c,
                input,
                output,
                cached,
            ) && s.next.output_tokens == output
        }),
{
    broadcast use members::group_reading;

    said::lemma_types();
    reveal_strlit("id");
    reveal_strlit("object");
    reveal_strlit("created");
    reveal_strlit("model");
    reveal_strlit("choices");
    reveal_strlit("usage");
    assert("id"@.len() == 2 && "object"@.len() == 6 && "created"@.len() == 7 && "model"@.len() == 5);
    assert("choices"@.len() == 7 && "usage"@.len() == 5 && "choices"@[1] == 'h' && "created"@[1] == 'r');
    assert("model"@[0] == 'm' && "usage"@[0] == 'u');
    reveal_strlit("index");
    reveal_strlit("delta");
    reveal_strlit("finish_reason");
    assert("index"@.len() == 5 && "delta"@.len() == 5 && "finish_reason"@.len() == 13 && "delta"@[0] == 'd');
    assert("index"@[0] == 'i');
    let s = t.step(e, now);
    let m = ChatV { last_cc_event: "finish"@, ..t };
    let c = s.chunks[0];
    let a = JsonV::obj().with("id"@, JsonV::Str(t.completion_id)).with(
        "object"@,
        JsonV::Str("chat.completion.chunk"@),
    ).with("created"@, json::int_json(t.created as int)).with("model"@, JsonV::Str(t.model));
    assert(a is Object);
    let x = JsonV::Str(errors::openai_reason(m.final_reason(e)));
    let ch = JsonV::obj().with("index"@, json::int_json(0)).with("delta"@, JsonV::obj()).with("finish_reason"@, x);
    assert(ch.get("finish_reason"@) == Some(x));
    let b = a.with("choices"@, JsonV::Array(seq![ch]));
    assert(b is Object && b.get("choices"@) == Some(JsonV::Array(seq![ch])));
    let counts = crate::translate::chat::usage_json(
        s.next.input_tokens,
        s.next.output_tokens,
        s.next.cached_input_tokens,
    );
    assert(c == b.with_some("usage"@, Some(counts)));
    assert(c.get("choices"@) == b.get("choices"@));
    assert(c.get("usage"@) == Some(counts));
    if answers::reports(u, input, output, cached) && (e.get("totalUsage"@) == Some(u) || (t.usage == Some(u) && !(e.get(
        "totalUsage"@,
    ) matches Some(JsonV::Object(_))))) {
        answers::reports_are_taken_as_they_stand(u, input, output, cached);
        answers::lemma_usage(input as i64, output as i64, cached as i64);
    }
}

/// The end of a step of a chat stream says nothing; its reason and its counts are kept for the end.
pub proof fn chat_steps_are_kept(t: ChatV, e: JsonV, now: i64)
    requires
        e.get("type"@) == Some(JsonV::Str("finish-step"@)),
    ensures
        ({
            let s = t.step(e, now);
            &&& s.chunks.len() == 0
            &&& s.next.saw_finish
            &&& e.get("finishReason"@) matches Some(JsonV::Str(r)) ==> s.next.finish_reason == Some(
                errors::finish_reason_of(r),
            )
            &&& !(e.get("finishReason"@) matches Some(JsonV::Str(_))) ==> s.next.finish_reason == t.finish_reason
            &&& e.get("usage"@) matches Some(u) ==> u is Object ==> s.next.usage == Some(u)
            &&& !(e.get("usage"@) matches Some(JsonV::Object(_))) ==> s.next.usage == t.usage
        }),
{
    said::lemma_types();
}

/// Nothing but an end changes how a chat stream ends, and an error is kept.
pub proof fn chat_ends_stay(t: ChatV, e: JsonV, ty: Seq<char>, now: i64)
    requires
        e.get("type"@) == Some(JsonV::Str(ty)),
    ensures
        ({
            let s = t.step(e, now).next;
            &&& ty != "finish"@ && ty != "finish-step"@ ==> s.saw_finish == t.saw_finish && s.finish_reason
                == t.finish_reason && s.usage == t.usage && s.output_tokens == t.output_tokens
            &&& ty == "error"@ ==> s.upstream_error == Some(errors::event_error(e))
            &&& ty != "error"@ ==> s.upstream_error == t.upstream_error
        }),
{
    said::lemma_types();
}

/// The end of a message has the reason and the counts that the upstream reports; what it does not
/// report stays.
pub proof fn message_ends_are_noted(
    t: AnthropicV,
    e: JsonV,
    ty: Seq<char>,
    uuid: Seq<char>,
    u: JsonV,
    input: int,
    output: int,
    cached: int,
)
    requires
        e.get("type"@) == Some(JsonV::Str(ty)),
        ty == "finish"@ || ty == "finish-step"@,
    ensures
        ({
            let s = t.step(e, uuid);
            &&& s.pieces.len() == 0
            &&& s.next.saw_finish
            &&& e.get("finishReason"@) matches Some(JsonV::Str(r)) ==> s.next.finish_norm == Some(
                errors::finish_reason_of(r),
            ) && s.next.stop_reason == Some(errors::stop_reason_of(errors::finish_reason_of(r)))
            &&& !(e.get("finishReason"@) matches Some(JsonV::Str(_))) ==> s.next.finish_norm == t.finish_norm
                && s.next.stop_reason == t.stop_reason
            &&& answers::reports(u, input, output, cached) && (e.get("totalUsage"@) == Some(u) || (e.get("usage"@)
                == Some(u) && !(e.get("totalUsage"@) matches Some(JsonV::Object(_))))) ==> s.next.input_tokens == input
                && s.next.output_tokens == output && s.next.cached_input_tokens == cached
            &&& !(e.get("totalUsage"@) matches Some(JsonV::Object(_))) && !(e.get("usage"@) matches Some(
                JsonV::Object(_),
            )) ==> s.next.input_tokens == t.input_tokens && s.next.output_tokens == t.output_tokens
                && s.next.cached_input_tokens == t.cached_input_tokens
        }),
{
    said::lemma_types();
    said::totals_come_first(e);
    if answers::reports(u, input, output, cached) {
        answers::reports_are_taken_as_they_stand(u, input, output, cached);
        numbers::integers_are_read(input, t.input_tokens);
        numbers::integers_are_read(output, t.output_tokens);
        numbers::integers_are_read(cached, t.cached_input_tokens);
    }
}

/// The details of a report are noted too: what was written to the cache, and what did not come
/// from it.
pub proof fn message_details_are_noted(t: AnthropicV, u: JsonV, written: int, plain: int)
    requires
        numbers::is_exact(written),
        numbers::is_exact(plain),
    ensures
        members::inner(u, "inputTokenDetails"@, "cacheWriteTokens"@) == Some(json::int_json(written)) ==> t.with_usage(
            u,
        ).cache_write_tokens == written,
        members::inner(u, "inputTokenDetails"@, "noCacheTokens"@) == Some(json::int_json(plain)) ==> t.with_usage(
            u,
        ).no_cache_tokens == plain,
{
    numbers::integers_are_read(written, t.cache_write_tokens);
    numbers::integers_are_read(plain, t.no_cache_tokens);
}

/// An error event is told in a message stream at once, with its own message, and is kept.
pub proof fn message_errors_are_told(t: AnthropicV, e: JsonV, uuid: Seq<char>)
    requires
        e.get("type"@) == Some(JsonV::Str("error"@)),
    ensures
        ({
            let s = t.step(e, uuid);
            &&& s.next.has_error && s.next.upstream_error == Some(errors::event_error(e))
            &&& s.pieces.len() == 1 && s.pieces[0].len() == 1
            &&& s.pieces[0][0] matches FrameV::Error { error, .. } && (failures::reported(e, "message"@) matches Some(m)
                ==> error.get("message"@) == Some(JsonV::Str(failures::as_read(m))))
        }),
{
    said::lemma_types();
    failures::error_events_are_told(e);
}

/// A message stream that was cut off, or had no output, ends with an error that says so.
pub proof fn message_streams_admit_their_end(t: AnthropicV)
    ensures
        !t.saw_finish || t.finish_norm == Some("upstream_error"@) ==> t.last_frames().len() == 1
            && t.last_frames()[0] is Error,
        t.saw_finish && t.finish_norm != Some("upstream_error"@) && t.output_tokens == 0 ==> t.last_frames().len() == 1
            && (t.last_frames()[0] matches FrameV::Error { error, retry_after } && retry_after == Some(10u64)
            && error.get("type"@) == Some(JsonV::Str("rate_limit_error"@))),
        t.has_error ==> t.finished().pieces.len() == 0,
{
    anthropic::typed_error_members("rate_limit_error"@, "Empty response from upstream (zero output tokens)"@);
}

/// Whether two translations of a response stand the same way as to its end.
spec fn same_end(a: ResponsesV, b: ResponsesV) -> bool {
    &&& a.saw_finish == b.saw_finish
    &&& a.finish_reason == b.finish_reason
    &&& a.usage == b.usage
    &&& a.upstream_error == b.upstream_error
}

proof fn lemma_opened(t: ResponsesV, kind: ItemKind, item: JsonV)
    ensures
        same_end(t.opened(kind, item).next, t),
        same_end(t.ensured(kind, item).next, t),
        same_end(t.begun().next, t),
{
    assert(same_end(t.closed().next, t));
}

proof fn lemma_content(t: ResponsesV, e: JsonV, x: Seq<char>, uuid: Seq<char>, call_uuid: Seq<char>)
    ensures
        same_end(t.on_text(x, uuid).next, t),
        same_end(t.on_reasoning(x, uuid).next, t),
        same_end(t.on_call(e, uuid, call_uuid).next, t),
{
    let b = t.begun().next;
    lemma_opened(t, ItemKind::Message, responses::message_item(uuid));
    lemma_opened(b, ItemKind::Message, responses::message_item(uuid));
    lemma_opened(b, ItemKind::Reasoning, responses::reasoning_item(uuid));
    lemma_opened(b, ItemKind::FunctionCall, responses::call_item(e, uuid, call_uuid));
}

/// Events with content change nothing of how a response ends, and an error is kept.
pub proof fn response_ends_stay(t: ResponsesV, e: JsonV, ty: Seq<char>, uuid: Seq<char>, call_uuid: Seq<char>)
    requires
        e.get("type"@) == Some(JsonV::Str(ty)),
        ty != "finish"@,
        ty != "finish-step"@,
    ensures
        ({
            let s = t.step(e, uuid, call_uuid).next;
            &&& s.saw_finish == t.saw_finish && s.finish_reason == t.finish_reason && s.usage == t.usage
            &&& ty == "error"@ ==> s.upstream_error == Some(errors::event_error(e))
            &&& ty != "error"@ ==> s.upstream_error == t.upstream_error
        }),
{
    said::lemma_types();
    let s = ResponsesV { last_cc_event: ty, ..t };
    lemma_content(s, e, events::delta_text_of(e), uuid, call_uuid);
    lemma_content(s, e, events::event_text_of(e), uuid, call_uuid);
    if ty == "text-delta"@ {
        assert(t.step(e, uuid, call_uuid) == s.on_text(events::delta_text_of(e), uuid));
    } else if ty == "reasoning-delta"@ {
        assert(t.step(e, uuid, call_uuid) == s.on_reasoning(events::event_text_of(e), uuid));
    } else if ty == "tool-call"@ {
        assert(t.step(e, uuid, call_uuid) == s.on_call(e, uuid, call_uuid));
    }
}

/// The end of a response has the reason and the usage that the upstream reports.
pub proof fn response_ends_are_noted(
    t: ResponsesV,
    e: JsonV,
    ty: Seq<char>,
    uuid: Seq<char>,
    call_uuid: Seq<char>,
    u: JsonV,
    input: int,
    output: int,
    cached: int,
)
    requires
        e.get("type"@) == Some(JsonV::Str(ty)),
        ty == "finish"@ || ty == "finish-step"@,
    ensures
        ({
            let s = t.step(e, uuid, call_uuid).next;
            &&& s.saw_finish && (e.get("finishReason"@) matches Some(JsonV::Str(r)) ==> s.finish_reason == Some(
                errors::finish_reason_of(r),
            ))
            &&& ty == "finish"@ && answers::reports(u, input, output, cached) && (e.get("totalUsage"@) == Some(u) || (
            e.get("usage"@) == Some(u) && !(e.get("totalUsage"@) matches Some(JsonV::Object(_))))) ==> s.usage == Some(
                u,
            ) && s.output_tokens == output
            &&& ty == "finish-step"@ ==> s.usage == t.usage
            &&& s.upstream_error == t.upstream_error
        }),
{
    said::lemma_types();
    said::totals_come_first(e);
    let s = ResponsesV { last_cc_event: ty, ..t };
    if ty == "finish"@ {
        assert(t.step(e, uuid, call_uuid).next == s.on_finish(e));
    } else {
        assert(t.step(e, uuid, call_uuid).next == s.on_finish_step(e));
    }
    if answers::reports(u, input, output, cached) {
        answers::reports_are_taken_as_they_stand(u, input, output, cached);
    }
}

/// A response stream that began ends with the response: completed, cut short, or failed with a
/// message that says why.
pub proof fn response_streams_admit_their_end(t: ResponsesV)
    requires
        t.created_sent,
    ensures
        ({
            let es = t.finished().events;
            let last = es.last();
            let whole = t.saw_finish && t.finish_reason != Some("upstream_error"@);
            let cut = t.finish_reason == Some("length"@) || t.finish_reason == Some("pause_turn"@);
            &&& es.len() > 0
            &&& whole && !cut ==> last is Completed
            &&& whole && cut ==> last is Incomplete
            &&& !whole ==> (last matches EventV::Failed { response } && (members::inner(
                response,
                "error"@,
                "message"@,
            ) matches Some(JsonV::Str(m)) && m.len() > 0))
        }),
{
    let n = t.closed().next;
    if let Some(detail) = errors::incomplete_detail_of(t.saw_finish, t.finish_reason) {
        failures::cut_off_answers_are_told(detail);
        reveal_strlit("Upstream stream ended without a completion finish (");
        let m = "Upstream stream ended without a completion finish ("@ + detail + ") — response was truncated"@;
        assert(m.len() > 0);
        crate::laws::response_stream::failures_tell_their_message(n, JsonV::Str(m));
    }
}

} // verus!
