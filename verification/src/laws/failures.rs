//! Clients are told why a request failed.

use vstd::prelude::*;
use crate::errors;
use crate::errors::MappedErrorV;
use crate::float;
use crate::handlers::chat;
use crate::handlers::chat::ChatStreamV;
use crate::handlers::gather::GatherV;
use crate::handlers::messages;
use crate::handlers::messages::AnthropicStreamV;
use crate::handlers::responses as response_handlers;
use crate::handlers::responses::ResponsesStreamV;
use crate::http_util;
use crate::http_util::ReplyV;
use crate::json;
use crate::json::JsonV;
use crate::laws::members;
use crate::laws::numbers;
use crate::text;
use crate::translate::anthropic;
use crate::translate::anthropic::{AnthropicV, FrameV};
use crate::translate::chat::ChatV;
use crate::translate::responses;
use crate::translate::responses::{EventV, ResponsesV};

verus! {

/// Whether a body tells of an error with a message and a type.
pub open spec fn tells(body: JsonV, message: Seq<char>, ty: Seq<char>) -> bool {
    &&& members::inner(body, "error"@, "message"@) == Some(JsonV::Str(message))
    &&& members::inner(body, "error"@, "type"@) == Some(JsonV::Str(ty))
}

/// Whether a reply with a status tells of an error.
pub open spec fn reply_tells(r: ReplyV, status: u16, message: Seq<char>, ty: Seq<char>) -> bool {
    &&& r.status == status
    &&& exists|j: JsonV| r.body == json::json_text(j) && #[trigger] tells(j, message, ty)
}

/// Whether a client is to be told a status and a type for a status of the upstream.
pub open spec fn is_mapped(up: int, status: u16, ty: Seq<char>) -> bool {
    &&& up == 402 ==> status == 429 && ty == "rate_limit_error"@
    &&& up == 403 ==> status == 401 && ty == "authentication_error"@
    &&& up == 422 ==> status == 400 && ty == "invalid_request_error"@
    &&& up == 503 ==> status == 503 && ty == "temporarily_unavailable"@
    &&& up != 402 && up != 403 && up != 422 && up != 503 ==> status == 502 && ty == "upstream_error"@
}

/// A message as a client reads it: a text as it stands, anything else as JSON.
pub open spec fn as_read(m: JsonV) -> Seq<char> {
    match m {
        JsonV::Str(s) => s,
        j => json::json_text(j),
    }
}

/// The message that an error report holds: that of its member `error`, else its own.
pub open spec fn reported(report: JsonV, k: Seq<char>) -> Option<JsonV> {
    if members::inner(report, "error"@, k) is Some {
        members::inner(report, "error"@, k)
    } else {
        report.get(k)
    }
}

/// A failed response of the upstream is told with its own message and code: as they stand in a
/// report, else the beginning of its text; and with the status that is due.
pub proof fn failed_responses_are_told(status: u16, t: Seq<char>)
    requires
        t.len() > 0,
    ensures
        ({
            let e = errors::response_error(status, Some(t));
            &&& exists|m: Seq<char>, ty: Seq<char>| #[trigger] tells(e.body, m, ty) && is_mapped(
                status as int,
                e.status,
                ty,
            )
            &&& json::json_parsed(t) matches Some(r) ==> (reported(r, "message"@) matches Some(m) ==> exists|
                ty: Seq<char>,
            | #[trigger] tells(e.body, as_read(m), ty))
            &&& json::json_parsed(t) matches Some(r) ==> (reported(r, "code"@) matches Some(c) ==> c != JsonV::Null
                ==> members::inner(e.body, "error"@, "code"@) == Some(c) && e.code == Some(c))
            &&& json::json_parsed(t) is None && t.len() <= 200 ==> exists|ty: Seq<char>| #[trigger] tells(
                e.body,
                t,
                ty,
            )
            &&& json::json_parsed(t) is None && t.len() > 200 ==> exists|ty: Seq<char>| #[trigger] tells(
                e.body,
                t.take(200),
                ty,
            )
        }),
{
    let e = errors::response_error(status, Some(t));
    let m = errors::response_message(status, Some(t));
    let ty = errors::status_map(status).1;
    errors::error_body_members(
        m,
        ty,
        errors::response_code(Some(t)),
        if status == 429 {
            Some(30)
        } else {
            None
        },
    );
    assert(tells(e.body, m, ty) && is_mapped(status as int, e.status, ty));
    if let Some(r) = json::json_parsed(t) {
        assert(errors::error_member(r, "message"@) == reported(r, "message"@));
        assert(errors::error_member(r, "code"@) == reported(r, "code"@));
        if let Some(x) = reported(r, "message"@) {
            assert(m == as_read(x));
            assert(tells(e.body, as_read(x), ty));
        }
    }
}

/// A failed response without a text is told with its status.
pub proof fn silent_responses_are_told(status: u16)
    ensures
        ({
            let e = errors::response_error(status, None);
            &&& exists|ty: Seq<char>| #[trigger] tells(
                e.body,
                "CC API error ("@ + text::decimal(status as nat) + ")"@,
                ty,
            ) && is_mapped(status as int, e.status, ty)
            &&& errors::response_error(status, Some(Seq::empty())) == e
        }),
{
    let e = errors::response_error(status, None);
    let m = errors::response_message(status, None);
    let ty = errors::status_map(status).1;
    errors::error_body_members(
        m,
        ty,
        None,
        if status == 429 {
            Some(30)
        } else {
            None
        },
    );
    assert(tells(e.body, m, ty));
}

/// An error event is told with its own message and code.
pub proof fn error_events_are_told(event: JsonV)
    ensures
        ({
            let e = errors::event_error(event);
            &&& reported(event, "message"@) matches Some(m) ==> exists|ty: Seq<char>| #[trigger] tells(
                e.body,
                as_read(m),
                ty,
            )
            &&& reported(event, "code"@) matches Some(c) ==> c != JsonV::Null ==> members::inner(
                e.body,
                "error"@,
                "code"@,
            ) == Some(c) && e.code == Some(c)
            &&& e.reported_status matches Some(n) ==> exists|m: Seq<char>, ty: Seq<char>| #[trigger] tells(
                e.body,
                m,
                ty,
            ) && is_mapped(n as int, e.status, ty)
            &&& e.reported_status is None ==> e.status == 502
            &&& reported(event, "message"@) is None ==> exists|ty: Seq<char>| #[trigger] tells(
                e.body,
                "Unknown CC error"@,
                ty,
            )
        }),
{
    let e = errors::event_error(event);
    let m = errors::event_message(event);
    let up = match errors::event_status(event) {
        Some(n) => n,
        None => 502,
    };
    let (status, ty) = errors::status_map(up);
    errors::error_body_members(
        m,
        ty,
        errors::non_null(errors::error_member(event, "code"@)),
        if status == 429 {
            Some(30)
        } else {
            None
        },
    );
    assert(tells(e.body, m, ty) && is_mapped(up as int, e.status, ty));
    assert(errors::error_member(event, "message"@) == reported(event, "message"@));
    assert(errors::error_member(event, "code"@) == reported(event, "code"@));
    if let Some(x) = reported(event, "message"@) {
        assert(m == as_read(x));
        assert(tells(e.body, as_read(x), ty));
    }
}

/// The status that an error event reports: the one in angle brackets at the beginning of its
/// message, else the one that its error names.
pub proof fn events_report_their_status(event: JsonV, n: int, rest: Seq<char>)
    requires
        100 <= n <= 999,
    ensures
        reported(event, "message"@) == Some(JsonV::Str(seq!['<'] + text::decimal(n as nat) + seq!['>'] + rest))
            ==> errors::event_error(event).reported_status == Some(n as u16),
        (reported(event, "message"@) matches Some(JsonV::Str(m)) && m.len() > 0 && m[0] != '<') && members::inner(
            event,
            "error"@,
            "statusCode"@,
        ) == Some(json::int_json(n)) ==> errors::event_error(event).reported_status == Some(n as u16),
{
    let d = text::decimal(n as nat);
    let a = n / 100;
    let b = (n / 10) % 10;
    let c = n % 10;
    reveal_with_fuel(text::decimal, 4);
    assert(n / 10 / 10 == a);
    assert(d =~= seq![text::digit_char(a as nat), text::digit_char(b as nat), text::digit_char(c as nat)]);
    assert(a * 100 + b * 10 + c == n);
    let m = seq!['<'] + d + seq!['>'] + rest;
    assert(m[0] == '<' && m[1] == d[0] && m[2] == d[1] && m[3] == d[2] && m[4] == '>');
    assert(errors::embedded_status_of(m) == Some(n as u16));
    float::lemma_round_short(n as nat);
    numbers::integers_are_read(n, 0);
    float::lemma_two_to_sum(0, 1074);
    let p = float::one();
    lemma_one();
    assert(((n as nat) * p) % p == 0 && ((n as nat) * p) / p == n) by (nonlinear_arith)
        requires
            p >= 1,
            n >= 0,
    ;
}

proof fn lemma_power(k: nat)
    ensures
        float::two_to(k) >= 1,
    decreases k,
{
    if k > 0 {
        lemma_power((k - 1) as nat);
    }
}

proof fn lemma_one()
    ensures
        float::one() >= 1,
{
    lemma_power(1074);
}

/// An answer that was cut off is told so, with what is known of it.
pub proof fn cut_off_answers_are_told(detail: Seq<char>)
    ensures
        tells(
            errors::incomplete_error(detail).body,
            "Upstream stream ended without a completion finish ("@ + detail + ") — response was truncated"@,
            "upstream_error"@,
        ),
        errors::incomplete_detail_of(false, None) == Some("no finish event"@),
        errors::incomplete_detail_of(true, Some("upstream_error"@)) == Some(
            "provider reported an upstream connection failure"@,
        ),
{
    errors::error_body_members(
        "Upstream stream ended without a completion finish ("@ + detail + ") — response was truncated"@,
        "upstream_error"@,
        None,
        Some(10),
    );
}

/// A JSON reply has its status and its body; a time to wait is a header too.
pub proof fn replies_hold_their_body(status: u16, body: JsonV, n: u64)
    ensures
        ({
            let r = http_util::json_reply(status, body);
            &&& r.status == status
            &&& r.body == json::json_text(body)
            &&& r.headers.len() > 0 && r.headers[0] == ("content-type"@, "application/json"@)
            &&& body.get("retry_after"@) == Some(json::int_json(n as int)) ==> r.headers.len() == 2 && r.headers[1] == (
                "retry-after"@,
                text::decimal(n as nat),
            )
            &&& body.get("retry_after"@) is None ==> r.headers.len() == 1
        }),
{
}

/// A mapped error is read by its members.
pub proof fn mapped_errors_are_read(e: MappedErrorV, message: Seq<char>, ty: Seq<char>, n: u64)
    requires
        tells(e.body, message, ty),
    ensures
        e.error_message() == message,
        e.error_type() == ty,
        e.body.get("retry_after"@) == Some(json::int_json(n as int)) ==> e.retry_after() == Some(n),
        e.body.get("retry_after"@) is None ==> e.retry_after() is None,
{
}

proof fn lemma_anthropic(ty: Seq<char>, message: Seq<char>, retry_after: Option<u64>)
    ensures
        ({
            let j = anthropic::error_json(anthropic::typed_error(ty, message), retry_after);
            &&& tells(j, message, ty)
            &&& j.get("type"@) == Some(JsonV::Str("error"@))
            &&& j.get("retry_after"@) == errors::count_json(retry_after)
            &&& anthropic::typed_error(ty, message).get("message"@) == Some(JsonV::Str(message))
            &&& anthropic::typed_error(ty, message).get("type"@) == Some(JsonV::Str(ty))
        }),
{
    broadcast use members::group_reading;

    reveal_strlit("type");
    reveal_strlit("message");
    reveal_strlit("error");
    reveal_strlit("retry_after");
    assert("type"@.len() == 4 && "message"@.len() == 7 && "error"@.len() == 5 && "retry_after"@.len() == 11);
    let a = JsonV::obj().with("type"@, JsonV::Str("error"@)).with("error"@, anthropic::typed_error(ty, message));
    assert(a is Object && a.get("type"@) == Some(JsonV::Str("error"@)) && a.get("error"@) == Some(
        anthropic::typed_error(ty, message),
    ) && a.get("retry_after"@) is None);
}

proof fn lemma_responses(ty: Seq<char>, message: Seq<char>, retry_after: Option<u64>)
    ensures
        ({
            let j = response_handlers::error_json(ty, message, retry_after);
            &&& tells(j, message, ty)
            &&& j.get("retry_after"@) == errors::count_json(retry_after)
        }),
{
    broadcast use members::group_reading;

    reveal_strlit("type");
    reveal_strlit("message");
    reveal_strlit("code");
    reveal_strlit("param");
    assert("type"@.len() == 4 && "message"@.len() == 7 && "code"@.len() == 4 && "param"@.len() == 5);
    assert("code"@[0] == 'c' && "type"@[0] == 't');
    reveal_strlit("error");
    reveal_strlit("retry_after");
    assert("error"@.len() == 5 && "retry_after"@.len() == 11);
    let a = JsonV::obj().with("message"@, JsonV::Str(message)).with("type"@, JsonV::Str(ty));
    assert(a is Object && a.get("message"@) == Some(JsonV::Str(message)) && a.get("type"@) == Some(JsonV::Str(ty)));
    let b = a.with("code"@, JsonV::Null).with("param"@, JsonV::Null);
    assert(b.get("message"@) == a.get("message"@) && b.get("type"@) == a.get("type"@));
    let c = JsonV::obj().with("error"@, b);
    assert(c is Object && c.get("error"@) == Some(b) && c.get("retry_after"@) is None);
}

/// An error that the upstream reports is the answer of each endpoint, with its status, its message
/// and its type.
pub proof fn upstream_errors_are_answers(
    g: GatherV,
    e: MappedErrorV,
    message: Seq<char>,
    ty: Seq<char>,
    model: Seq<char>,
    id: Seq<char>,
    created: i64,
    echo: JsonV,
    completed: i64,
    ids: responses::OutputIdsV,
)
    requires
        g.upstream_error == Some(e),
        tells(e.body, message, ty),
    ensures
        reply_tells(chat::gathered_reply(g, model, id, created), e.status, message, ty),
        reply_tells(messages::gathered_reply(g, model, id), e.status, message, ty),
        reply_tells(
            response_handlers::gathered_reply(g, id, model, created, echo, completed, ids),
            e.status,
            message,
            ty,
        ),
{
    assert(tells(e.body, message, ty));
    mapped_errors_are_read(e, message, ty, 0);
    lemma_anthropic(ty, message, e.retry_after());
    assert(tells(anthropic::error_json(anthropic::typed_error(ty, message), e.retry_after()), message, ty));
    lemma_responses(ty, message, e.retry_after());
    assert(tells(response_handlers::error_json(ty, message, e.retry_after()), message, ty));
}

/// An error reply of an endpoint tells its message and its type.
pub proof fn error_replies_are_told(status: u16, ty: Seq<char>, message: Seq<char>, retry_after: Option<u64>)
    ensures
        reply_tells(messages::error_reply(status, ty, message, retry_after), status, message, ty),
        reply_tells(response_handlers::error_reply(status, ty, message, retry_after), status, message, ty),
        tells(chat::plain_error(message, ty), message, ty),
{
    broadcast use members::group_reading;

    lemma_anthropic(ty, message, retry_after);
    assert(tells(anthropic::error_json(anthropic::typed_error(ty, message), retry_after), message, ty));
    lemma_responses(ty, message, retry_after);
    assert(tells(response_handlers::error_json(ty, message, retry_after), message, ty));
    reveal_strlit("type");
    reveal_strlit("message");
    reveal_strlit("error");
    assert("type"@.len() == 4 && "message"@.len() == 7 && "error"@.len() == 5);
}

proof fn lemma_failure(message: Seq<char>, ty: Seq<char>, n: int)
    ensures
        tells(chat::failure_json(message, ty, n), message, ty),
        chat::failure_json(message, ty, n).get("retry_after"@) == Some(json::int_json(n)),
        tells(chat::plain_error(message, ty).with("retry_after"@, json::int_json(n)), message, ty),
        tells(chat::plain_error(message, ty), message, ty),
{
    broadcast use members::group_reading;

    reveal_strlit("type");
    reveal_strlit("message");
    reveal_strlit("error");
    reveal_strlit("retry_after");
    reveal_strlit("input_tokens");
    assert("type"@.len() == 4 && "message"@.len() == 7 && "error"@.len() == 5 && "retry_after"@.len() == 11);
    assert("input_tokens"@.len() == 12);
    let a = JsonV::obj().with("message"@, JsonV::Str(message)).with("type"@, JsonV::Str(ty));
    assert(a is Object && a.get("message"@) == Some(JsonV::Str(message)) && a.get("type"@) == Some(JsonV::Str(ty)));
    let b = a.with("input_tokens"@, json::int_json(0));
    assert(b.get("message"@) == a.get("message"@) && b.get("type"@) == a.get("type"@));
    assert(JsonV::obj().with("error"@, b).get("error"@) == Some(b));
    assert(chat::plain_error(message, ty).get("error"@) == Some(a));
}

/// A client is told of a timeout, and after several in a row what to do about it.
pub proof fn timeouts_are_told(consecutive: usize)
    ensures
        consecutive < http_util::TIMEOUT_REDUCE_CONTEXT_THRESHOLD ==> http_util::timeout_text(consecutive)
            == "Response timeout - request timed out"@,
        consecutive >= http_util::TIMEOUT_REDUCE_CONTEXT_THRESHOLD ==> http_util::timeout_text(consecutive)
            == "Response timeout - try reducing context length (summarize earlier messages)"@,
{
}

/// A chat stream that fails on the way tells why: in a frame where it began, else as the answer.
pub proof fn chat_streams_tell_why(s: ChatStreamV, consecutive: usize, e: Seq<char>)
    ensures
        s.started ==> (exists|j: JsonV|
            s.idle_ending(consecutive).sent == seq!["data: "@ + json::json_text(j) + "\n\n"@] && #[trigger] tells(
                j,
                http_util::timeout_text(consecutive),
                "rate_limit_error"@,
            )),
        s.started ==> (exists|j: JsonV|
            s.broken_ending(e).sent == seq!["data: "@ + json::json_text(j) + "\n\n"@] && #[trigger] tells(
                j,
                e,
                "proxy_error"@,
            )),
        s.started ==> s.idle_ending(consecutive).failure is None && s.broken_ending(e).failure is None,
        !s.started ==> (s.idle_ending(consecutive).failure matches Some(f) && f.status == 429 && tells(
            f.body,
            http_util::timeout_text(consecutive),
            "rate_limit_error"@,
        )),
        !s.started ==> (s.broken_ending(e).failure matches Some(f) && f.status == 502 && tells(
            f.body,
            "Upstream error: "@ + e,
            "proxy_error"@,
        )),
        !s.started ==> s.idle_ending(consecutive).sent.len() == 0 && s.broken_ending(e).sent.len() == 0,
{
    let m = http_util::timeout_text(consecutive);
    lemma_failure(m, "rate_limit_error"@, 5);
    lemma_failure(e, "proxy_error"@, 5);
    lemma_failure("Upstream error: "@ + e, "proxy_error"@, 10);
    let a = chat::plain_error(m, "rate_limit_error"@).with("retry_after"@, json::int_json(5));
    assert(tells(a, m, "rate_limit_error"@));
    let b = chat::plain_error(e, "proxy_error"@);
    assert(tells(b, e, "proxy_error"@));
}

/// A stream of a message that fails on the way tells why: in an event where it began, else as the
/// answer.
pub proof fn message_streams_tell_why(s: AnthropicStreamV, consecutive: usize, e: Seq<char>)
    ensures
        s.started ==> (exists|j: JsonV|
            s.idle_ending(consecutive).sent == seq![
                #[trigger] (FrameV::Error { error: j, retry_after: Some(5) }).text(),
            ] && j.get("message"@) == Some(JsonV::Str(http_util::timeout_text(consecutive))) && j.get("type"@) == Some(
                JsonV::Str("rate_limit_error"@),
            )),
        s.started ==> (exists|j: JsonV|
            s.broken_ending(e).sent == seq![#[trigger] (FrameV::Error { error: j, retry_after: None }).text()] && j.get(
                "message"@,
            ) == Some(JsonV::Str(e))),
        !s.started ==> (s.idle_ending(consecutive).failure matches Some(f) && f.status == 429 && tells(
            f.body,
            http_util::timeout_text(consecutive),
            "rate_limit_error"@,
        )),
        !s.started ==> (s.broken_ending(e).failure matches Some(f) && f.status == 502 && tells(
            f.body,
            "Upstream error: "@ + e,
            "proxy_error"@,
        )),
{
    let m = http_util::timeout_text(consecutive);
    lemma_anthropic("rate_limit_error"@, m, Some(5));
    lemma_anthropic("proxy_error"@, "Upstream error: "@ + e, Some(10));
    lemma_anthropic("internal_error"@, e, None);
    let a = anthropic::typed_error("rate_limit_error"@, m);
    assert(s.started ==> s.idle_ending(consecutive).sent == seq![
        (FrameV::Error { error: a, retry_after: Some(5) }).text(),
    ]);
    let b = anthropic::typed_error("internal_error"@, e);
    assert(s.started ==> s.broken_ending(e).sent == seq![(FrameV::Error { error: b, retry_after: None }).text()]);
}

/// A stream of a response that fails on the way tells why: in an event where it began, else as the
/// answer.
pub proof fn response_streams_tell_why(s: ResponsesStreamV, consecutive: usize, e: Seq<char>)
    ensures
        s.translator.created_sent ==> s.idle_ending(consecutive).sent == seq![
            responses::numbered_text(
                s.translator.seq,
                "error"@,
                (EventV::Error { message: http_util::timeout_text(consecutive) }).data(),
            ),
        ] && s.broken_ending(e).sent == seq![
            responses::numbered_text(s.translator.seq, "error"@, (EventV::Error { message: e }).data()),
        ],
        !s.translator.created_sent ==> (s.idle_ending(consecutive).failure matches Some(f) && f.status == 429 && tells(
            f.body,
            http_util::timeout_text(consecutive),
            "rate_limit_error"@,
        )),
        !s.translator.created_sent ==> (s.broken_ending(e).failure matches Some(f) && f.status == 502 && tells(
            f.body,
            "Upstream error: "@ + e,
            "proxy_error"@,
        )),
{
    lemma_responses("rate_limit_error"@, http_util::timeout_text(consecutive), Some(5));
    lemma_responses("proxy_error"@, "Upstream error: "@ + e, Some(10));
}

/// What is told of an answer that was cut off.
pub open spec fn cut_off_text(detail: Seq<char>) -> Seq<char> {
    "Upstream stream ended without a completion finish ("@ + detail + ") — response was truncated"@
}

/// What is told of an answer without output.
pub open spec fn no_output_text() -> Seq<char> {
    "Empty response from upstream (zero output tokens)"@
}

proof fn lemma_no_output()
    ensures
        tells(http_util::empty_response_json(), no_output_text(), "rate_limit_error"@),
{
    broadcast use members::group_reading;

    reveal_strlit("type");
    reveal_strlit("message");
    reveal_strlit("error");
    reveal_strlit("retry_after");
    assert("type"@.len() == 4 && "message"@.len() == 7 && "error"@.len() == 5 && "retry_after"@.len() == 11);
    let a = JsonV::obj().with("message"@, JsonV::Str(no_output_text())).with("type"@, JsonV::Str("rate_limit_error"@));
    assert(a is Object && a.get("message"@) == Some(JsonV::Str(no_output_text())) && a.get("type"@) == Some(
        JsonV::Str("rate_limit_error"@),
    ));
    assert(JsonV::obj().with("error"@, a).get("error"@) == Some(a));
}

proof fn lemma_cut_off(detail: Seq<char>)
    ensures
        ({
            let e = errors::incomplete_error(detail);
            &&& tells(e.body, cut_off_text(detail), "upstream_error"@)
            &&& e.error_message() == cut_off_text(detail)
            &&& e.error_type() == "upstream_error"@
            &&& e.status == 502
        }),
{
    cut_off_answers_are_told(detail);
    mapped_errors_are_read(errors::incomplete_error(detail), cut_off_text(detail), "upstream_error"@, 10);
}

/// What was cut off, or is without output, is told so by each endpoint.
pub proof fn failed_answers_say_so(
    g: GatherV,
    detail: Seq<char>,
    model: Seq<char>,
    id: Seq<char>,
    created: i64,
    echo: JsonV,
    completed: i64,
    ids: responses::OutputIdsV,
)
    requires
        g.upstream_error is None,
    ensures
        ({
            let a = chat::gathered_reply(g, model, id, created);
            let b = messages::gathered_reply(g, model, id);
            let c = response_handlers::gathered_reply(g, id, model, created, echo, completed, ids);
            &&& g.incomplete() == Some(detail) ==> reply_tells(a, 502, cut_off_text(detail), "upstream_error"@)
                && reply_tells(b, 502, cut_off_text(detail), "upstream_error"@) && reply_tells(
                c,
                502,
                cut_off_text(detail),
                "upstream_error"@,
            )
            &&& g.incomplete() is None && chat::reported_output(g) == 0 ==> reply_tells(
                a,
                429,
                no_output_text(),
                "rate_limit_error"@,
            )
            &&& g.incomplete() is None && g.without_output() ==> reply_tells(
                b,
                429,
                no_output_text(),
                "rate_limit_error"@,
            ) && reply_tells(c, 429, no_output_text(), "rate_limit_error"@)
        }),
{
    lemma_cut_off(detail);
    lemma_no_output();
    let e = errors::incomplete_error(detail);
    assert(tells(e.body, cut_off_text(detail), "upstream_error"@));
    assert(tells(http_util::empty_response_json(), no_output_text(), "rate_limit_error"@));
    error_replies_are_told(502, "upstream_error"@, cut_off_text(detail), e.retry_after());
    error_replies_are_told(429, "rate_limit_error"@, no_output_text(), Some(10));
}

/// A stream that says nothing is answered with what went wrong: the error of the upstream, that it
/// was cut off, or that there was no output.
pub proof fn silent_streams_are_answered(
    c: ChatV,
    m: AnthropicV,
    r: ResponsesV,
    e: MappedErrorV,
    detail: Seq<char>,
)
    ensures
        c.upstream_error == Some(e) ==> (chat::stream_failure(c) matches Some(f) && f.status == e.status && f.body
            == e.body),
        m.upstream_error == Some(e) ==> (messages::silent_failure(m) matches Some(f) && f.status == e.status && f.body
            == e.body),
        r.upstream_error == Some(e) ==> (response_handlers::silent_failure(r) matches Some(f) && f.status == e.status
            && f.body == e.body),
        c.upstream_error is None && c.incomplete() == Some(detail) ==> (chat::stream_failure(c) matches Some(f)
            && f.status == 502 && tells(f.body, cut_off_text(detail), "upstream_error"@)),
        m.upstream_error is None && m.incomplete() == Some(detail) ==> (messages::silent_failure(m) matches Some(f)
            && f.status == 502 && tells(f.body, cut_off_text(detail), "upstream_error"@)),
        r.upstream_error is None && r.incomplete() == Some(detail) ==> (response_handlers::silent_failure(r) matches Some(
            f,
        ) && f.status == 502 && tells(f.body, cut_off_text(detail), "upstream_error"@)),
        c.upstream_error is None && c.incomplete() is None && c.output_tokens == 0 ==> (chat::stream_failure(
            c,
        ) matches Some(f) && f.status == 429 && tells(f.body, no_output_text(), "rate_limit_error"@)),
        m.upstream_error is None && m.incomplete() is None && m.output_tokens == 0 ==> (messages::silent_failure(
            m,
        ) matches Some(f) && f.status == 429 && tells(f.body, no_output_text(), "rate_limit_error"@)),
        r.upstream_error is None && r.incomplete() is None && r.output_tokens == 0 ==> (response_handlers::silent_failure(
            r,
        ) matches Some(f) && f.status == 429 && tells(f.body, no_output_text(), "rate_limit_error"@)),
{
    lemma_cut_off(detail);
    lemma_no_output();
    let x = errors::incomplete_error(detail);
    lemma_anthropic("upstream_error"@, cut_off_text(detail), x.retry_after());
    lemma_responses("upstream_error"@, cut_off_text(detail), x.retry_after());
    lemma_anthropic("rate_limit_error"@, no_output_text(), Some(10));
    lemma_responses("rate_limit_error"@, no_output_text(), Some(10));
}

/// A stream that ends with an error of the upstream, or before its end, tells so.
pub proof fn chat_streams_end_with_their_error(s: ChatStreamV, e: MappedErrorV)
    ensures
        s.translator.upstream_error == Some(e) && s.started ==> s.conclusion().sent == seq![
            "data: "@ + json::json_text(e.body) + "\n\n"@,
        ],
        s.translator.upstream_error == Some(e) && !s.started ==> s.conclusion().failure == Some(
            http_util::FinalErrorV { status: e.status, body: e.body },
        ),
        s.translator.upstream_error is None && s.translator.saw_finish && s.translator.finish_reason != Some(
            "upstream_error"@,
        ) && s.translator.output_tokens != 0 ==> s.conclusion().sent == seq!["data: [DONE]\n\n"@]
            && s.conclusion().failure is None,
{
}

} // verus!
