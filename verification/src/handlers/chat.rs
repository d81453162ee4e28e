//! `POST /v1/chat/completions`.

use vstd::prelude::*;
use crate::cc;
use crate::cc::build_cc_request_on;
use crate::config;
use crate::config::{Config, ConfigV};
use crate::errors;
use crate::errors::{incomplete_upstream_error, normalize_usage, to_openai_finish_reason};
use crate::fingerprint::{DeviceProfile, DeviceProfileV};
use crate::handlers::gather::{Gather, GatherV};
use crate::http_util;
use crate::http_util::{
    empty_response_body, json_response, rest_text, sse_data, take_lines, timeout_message, upstream_error_response,
    BodyError, Ending, EndingV, FinalError, FinalErrorV, Reply, ReplyV,
};
use crate::json;
use crate::json::{copy_list, one_json, Json, JsonV};
use crate::text;
use crate::text::{append_texts, cat, cat3, decimal_usize, no_texts, one_text};
use crate::translate::anthropic_request as request;
use crate::translate::anthropic_request::array_if_any;
use crate::translate::chat;
use crate::translate::chat::{make_usage, ChatSseTranslator, ChatV};
use crate::util;
use crate::util::{date_str_utc, get_api_key, now_unix, nullish_i64, random_uuid, short_id};

verus! {

// ── before the upstream is asked ───────────────────────────────

/// An error in the OpenAI form.
pub open spec fn plain_error(message: Seq<char>, ty: Seq<char>) -> JsonV {
    JsonV::obj().with("error"@, JsonV::obj().with("message"@, JsonV::Str(message)).with("type"@, JsonV::Str(ty)))
}

pub(crate) fn make_plain_error(message: &str, ty: &str) -> (r: Json)
    ensures
        r@ == plain_error(message@, ty@),
{
    Json::obj().with("error", Json::obj().with_str("message", message).with_str("type", ty))
}

/// What a client is told of a body beyond its limit.
pub open spec fn too_large_text(limit: usize) -> Seq<char> {
    "Request body exceeds "@ + text::decimal(limit as nat / 1_048_576) + "MB limit"@
}

pub(crate) fn too_large_message(limit: usize) -> (r: String)
    ensures
        r@ == too_large_text(limit),
{
    cat3("Request body exceeds ", decimal_usize(limit / 1024 / 1024).as_str(), "MB limit")
}

/// What a client without a key is told.
pub open spec fn missing_key_text() -> Seq<char> {
    "Missing API key. Send in Authorization: Bearer <key> or x-api-key header"@
}

/// A request that is ready to be sent upstream.
pub struct ChatPlan {
    pub api_key: String,
    pub stream: bool,
    pub model: String,
    pub completion_id: String,
    pub created: i64,
    pub cc_body: Json,
    pub prompt_cache_key: Option<String>,
}

/// The model of such a request.
pub struct ChatPlanV {
    pub api_key: Seq<char>,
    pub stream: bool,
    pub model: Seq<char>,
    pub completion_id: Seq<char>,
    pub created: i64,
    pub cc_body: JsonV,
    pub prompt_cache_key: Option<Seq<char>>,
}

impl ChatPlan {
    pub open spec fn view(&self) -> ChatPlanV {
        ChatPlanV {
            api_key: self.api_key@,
            stream: self.stream,
            model: self.model@,
            completion_id: self.completion_id@,
            created: self.created,
            cc_body: self.cc_body@,
            prompt_cache_key: text::text_opt(self.prompt_cache_key),
        }
    }
}

/// The reply to a body that was refused.
pub open spec fn body_reply(e: BodyError) -> ReplyV {
    match e {
        BodyError::TooLarge(limit) => http_util::json_reply(
            413,
            plain_error(too_large_text(limit), "invalid_request_error"@),
        ),
        BodyError::InvalidJson => http_util::json_reply(
            400,
            plain_error("Invalid JSON body"@, "invalid_request_error"@),
        ),
    }
}

/// What comes of a request, at a time and on a date; the UUID makes the completion's identifier.
pub open spec fn plan_of(
    cfg: ConfigV,
    profile: DeviceProfileV,
    body: Result<JsonV, BodyError>,
    api_key: Option<Seq<char>>,
    uuid: Seq<char>,
    now: i64,
    date: Seq<char>,
) -> Result<ChatPlanV, ReplyV> {
    match body {
        Err(e) => Err(body_reply(e)),
        Ok(req) => match api_key {
            None => Err(http_util::json_reply(401, plain_error(missing_key_text(), "auth_error"@))),
            Some(key) => Ok(
                ChatPlanV {
                    api_key: key,
                    stream: config::bool_or(req, "stream"@, false),
                    model: cc::model_of(req),
                    completion_id: "chatcmpl-"@ + util::short_id_text(uuid, 12),
                    created: now,
                    cc_body: cc::cc_request(cfg, profile, req, date),
                    prompt_cache_key: req.get_nonempty("prompt_cache_key"@),
                },
            ),
        },
    }
}

/// The model of a body that was read.
pub open spec fn body_model(body: Result<Json, BodyError>) -> Result<JsonV, BodyError> {
    match body {
        Ok(j) => Ok(j@),
        Err(e) => Err(e),
    }
}

/// The model of a plan, or of the reply in its place.
pub open spec fn plan_model(r: Result<ChatPlan, Reply>) -> Result<ChatPlanV, ReplyV> {
    match r {
        Ok(p) => Ok(p@),
        Err(e) => Err(e@),
    }
}

/// Turns a request into one for the upstream, at a time and on a date. The two headers are those
/// that can hold the API key.
pub fn plan_with(
    cfg: &Config,
    profile: &DeviceProfile,
    body: Result<Json, BodyError>,
    authorization: Option<&str>,
    x_api_key: Option<&str>,
    uuid: &str,
    now: i64,
    date: &str,
) -> (r: Result<ChatPlan, Reply>)
    ensures
        plan_model(r) == plan_of(
            cfg@,
            profile@,
            body_model(body),
            util::api_key_of(text::str_opt(authorization), text::str_opt(x_api_key)),
            uuid@,
            now,
            date@,
        ),
{
    let req = match body {
        Ok(j) => j,
        Err(BodyError::TooLarge(limit)) => {
            let message = too_large_message(limit);
            return Err(json_response(413, &make_plain_error(message.as_str(), "invalid_request_error")));
        },
        Err(BodyError::InvalidJson) => {
            return Err(json_response(400, &make_plain_error("Invalid JSON body", "invalid_request_error")));
        },
    };
    let api_key = match get_api_key(authorization, x_api_key) {
        Some(k) => k,
        None => {
            return Err(
                json_response(
                    401,
                    &make_plain_error(
                        "Missing API key. Send in Authorization: Bearer <key> or x-api-key header",
                        "auth_error",
                    ),
                ),
            );
        },
    };
    let stream = stream_wanted(&req);
    let model = match req.get_nonempty("model") {
        Some(m) => m.to_owned(),
        None => "deepseek/deepseek-v4-flash".to_owned(),
    };
    let prompt_cache_key = match req.get_nonempty("prompt_cache_key") {
        Some(k) => Some(k.to_owned()),
        None => None,
    };
    Ok(
        ChatPlan {
            api_key,
            stream,
            model,
            completion_id: cat("chatcmpl-", short_id(uuid, 12).as_str()),
            created: now,
            cc_body: build_cc_request_on(cfg, profile, &req, date),
            prompt_cache_key,
        },
    )
}

/// Whether a request asks for a stream.
pub(crate) fn stream_wanted(req: &Json) -> (r: bool)
    ensures
        r == config::bool_or(req@, "stream"@, false),
{
    match req.get("stream") {
        Some(s) => match s.as_bool() {
            Some(b) => b,
            None => false,
        },
        None => false,
    }
}

/// Turns a request into one for the upstream.
pub fn plan(
    cfg: &Config,
    profile: &DeviceProfile,
    body: Result<Json, BodyError>,
    authorization: Option<&str>,
    x_api_key: Option<&str>,
) -> (r: Result<ChatPlan, Reply>)
    ensures
        exists|uuid: Seq<char>, now: i64, date: Seq<char>|
            0 <= now && util::uuid_text(uuid) && util::date_text(date) && plan_model(r) == #[trigger] plan_of(
                cfg@,
                profile@,
                body_model(body),
                util::api_key_of(text::str_opt(authorization), text::str_opt(x_api_key)),
                uuid,
                now,
                date,
            ),
{
    let uuid = random_uuid();
    let date = date_str_utc();
    plan_with(cfg, profile, body, authorization, x_api_key, uuid.as_str(), now_unix(), date.as_str())
}

// ── failures ───────────────────────────────────────────────────

/// The body of the answer to a failure on the way.
pub open spec fn failure_json(message: Seq<char>, ty: Seq<char>, retry_after: int) -> JsonV {
    JsonV::obj().with(
        "error"@,
        JsonV::obj().with("message"@, JsonV::Str(message)).with("type"@, JsonV::Str(ty)).with(
            "input_tokens"@,
            json::int_json(0),
        ),
    ).with("retry_after"@, json::int_json(retry_after))
}

fn make_failure(message: &str, ty: &str, retry_after: i64) -> (r: Json)
    ensures
        r@ == failure_json(message@, ty@, retry_after as int),
{
    Json::obj().with(
        "error",
        Json::obj().with_str("message", message).with_str("type", ty).with_int("input_tokens", 0),
    ).with_int("retry_after", retry_after)
}

/// What is told of a connection that failed.
pub open spec fn connection_text(e: Seq<char>) -> Seq<char> {
    "Upstream error: "@ + e
}

/// The failure of a connection.
pub open spec fn connection_failure(e: Seq<char>) -> FinalErrorV {
    FinalErrorV { status: 502, body: failure_json(connection_text(e), "proxy_error"@, 10) }
}

/// The failure of an upstream that was silent, after so many in a row.
pub open spec fn idle_failure(consecutive: usize) -> FinalErrorV {
    FinalErrorV {
        status: 429,
        body: failure_json(http_util::timeout_text(consecutive), "rate_limit_error"@, 5),
    }
}

fn make_connection_failure(e: &str) -> (r: FinalError)
    ensures
        r@ == connection_failure(e@),
{
    FinalError { status: 502, body: make_failure(cat("Upstream error: ", e).as_str(), "proxy_error", 10) }
}

fn make_idle_failure(consecutive: usize) -> (r: FinalError)
    ensures
        r@ == idle_failure(consecutive),
{
    FinalError { status: 429, body: make_failure(timeout_message(consecutive).as_str(), "rate_limit_error", 5) }
}

/// The reply where the upstream cannot be reached, or the connection to it broke.
pub fn connection_reply(e: &str) -> (r: Reply)
    ensures
        r@ == http_util::json_reply(502, connection_failure(e@).body),
{
    json_response(502, &make_connection_failure(e).body)
}

/// The reply where the upstream was silent.
pub fn idle_reply(consecutive: usize) -> (r: Reply)
    ensures
        r@ == http_util::json_reply(429, idle_failure(consecutive).body),
{
    json_response(429, &make_idle_failure(consecutive).body)
}

// ── answers that are no stream ─────────────────────────────────

/// The output that a usage report names.
pub open spec fn reported_output(g: GatherV) -> i64 {
    match g.usage {
        Some(u) => util::integer_or(u.get("outputTokens"@), 0),
        None => 0,
    }
}

/// The completion for what the upstream said.
pub open spec fn completion(g: GatherV, model: Seq<char>, completion_id: Seq<char>, created: i64) -> JsonV {
    let u = errors::usage_normal(
        match g.usage {
            Some(u) => u,
            None => JsonV::obj(),
        },
    );
    let message = JsonV::obj().with("role"@, JsonV::Str("assistant"@)).with(
        "content"@,
        if g.full_text.len() == 0 {
            JsonV::Null
        } else {
            JsonV::Str(g.full_text)
        },
    ).with_some("tool_calls"@, request::list_if_any(g.tool_calls)).with_some(
        "reasoning_content"@,
        request::text_if_any(g.thinking),
    );
    JsonV::obj().with("id"@, JsonV::Str(completion_id)).with("object"@, JsonV::Str("chat.completion"@)).with(
        "created"@,
        json::int_json(created as int),
    ).with("model"@, JsonV::Str(model)).with(
        "choices"@,
        JsonV::Array(
            seq![
                JsonV::obj().with("index"@, json::int_json(0)).with("message"@, message).with(
                    "finish_reason"@,
                    JsonV::Str(errors::openai_reason(g.finish_reason)),
                ),
            ],
        ),
    ).with(
        "usage"@,
        chat::usage_json(
            util::integer_or(u.get("inputTokens"@), 0),
            util::integer_or(u.get("outputTokens"@), 0),
            util::integer_or(u.get("cachedInputTokens"@), 0),
        ),
    )
}

/// Why what the upstream said is no completion: an error, an end that did not come, or no output.
pub open spec fn gathered_failure(g: GatherV) -> Option<FinalErrorV> {
    match g.upstream_error {
        Some(e) => Some(FinalErrorV { status: e.status, body: e.body }),
        None => match g.incomplete() {
            Some(detail) => Some(FinalErrorV { status: 502, body: errors::incomplete_error(detail).body }),
            None => if reported_output(g) == 0 {
                Some(FinalErrorV { status: 429, body: http_util::empty_response_json() })
            } else {
                None
            },
        },
    }
}

/// The reply for what the upstream said.
pub open spec fn gathered_reply(g: GatherV, model: Seq<char>, completion_id: Seq<char>, created: i64) -> ReplyV {
    match gathered_failure(g) {
        Some(f) => http_util::json_reply(f.status, f.body),
        None => http_util::json_reply(200, completion(g, model, completion_id, created)),
    }
}

fn make_completion(g: &Gather, model: &str, completion_id: &str, created: i64) -> (r: Json)
    ensures
        r@ == completion(g@, model@, completion_id@, created),
{
    let mut u = match &g.usage {
        Some(u) => u.clone(),
        None => Json::obj(),
    };
    normalize_usage(&mut u);
    let content = if g.full_text.as_str().is_empty() {
        Json::Null
    } else {
        Json::of_str(g.full_text.as_str())
    };
    let message = Json::obj().with_str("role", "assistant").with("content", content).with_some(
        "tool_calls",
        array_if_any(copy_list(&g.tool_calls)),
    ).with_some("reasoning_content", crate::translate::anthropic_request::str_if_any(g.thinking.as_str()));
    let choice = Json::obj().with_int("index", 0).with("message", message).with_str(
        "finish_reason",
        to_openai_finish_reason(g.finish_reason.as_str()),
    );
    Json::obj().with_str("id", completion_id).with_str("object", "chat.completion").with_int("created", created).with_str(
        "model",
        model,
    ).with("choices", Json::array(one_json(choice))).with(
        "usage",
        make_usage(
            nullish_i64(u.get("inputTokens"), 0),
            nullish_i64(u.get("outputTokens"), 0),
            nullish_i64(u.get("cachedInputTokens"), 0),
        ),
    )
}

/// The reply for what the upstream said, and whether it is a completion.
pub fn reply(g: &Gather, model: &str, completion_id: &str, created: i64) -> (r: (Reply, bool))
    ensures
        r.0@ == gathered_reply(g@, model@, completion_id@, created),
        r.1 == (gathered_failure(g@) is None),
{
    if let Some(e) = &g.upstream_error {
        return (upstream_error_response(e), false);
    }
    if let Some(detail) = g.incomplete_detail() {
        return (upstream_error_response(&incomplete_upstream_error(detail)), false);
    }
    let output: i64 = match &g.usage {
        Some(u) => nullish_i64(u.get("outputTokens"), 0),
        None => 0,
    };
    if output == 0 {
        return (json_response(429, &empty_response_body()), false);
    }
    (json_response(200, &make_completion(g, model, completion_id, created)), true)
}

// ── streams ────────────────────────────────────────────────────

/// A stream that is being translated.
pub struct ChatStream {
    pub translator: ChatSseTranslator,
    pub buffer: Vec<u8>,
    /// Whether something was sent.
    pub started: bool,
}

/// The model of such a stream.
pub struct ChatStreamV {
    pub translator: ChatV,
    pub buffer: Seq<u8>,
    pub started: bool,
}

/// What something sends, and the stream after it.
pub struct ChatStreamStepV {
    pub next: ChatStreamV,
    pub sent: Seq<Seq<char>>,
}

/// Why a stream is not told as complete: an error, an end that did not come, or no output.
pub open spec fn stream_failure(t: ChatV) -> Option<FinalErrorV> {
    match t.upstream_error {
        Some(e) => Some(FinalErrorV { status: e.status, body: e.body }),
        None => match t.incomplete() {
            Some(detail) => Some(FinalErrorV { status: 502, body: errors::incomplete_error(detail).body }),
            None => if t.output_tokens == 0 {
                Some(FinalErrorV { status: 429, body: http_util::empty_response_json() })
            } else {
                None
            },
        },
    }
}

impl ChatStreamV {
    pub open spec fn start(model: Seq<char>, completion_id: Seq<char>, created: i64) -> ChatStreamV {
        ChatStreamV {
            translator: ChatV::start(model, completion_id, created),
            buffer: Seq::empty(),
            started: false,
        }
    }

    /// What a line sends, at a time.
    pub open spec fn line(self, line: Seq<char>, now: i64) -> ChatStreamStepV {
        let s = self.translator.line(line, now);
        ChatStreamStepV {
            next: ChatStreamV { translator: s.next, started: self.started || s.chunks.len() > 0, ..self },
            sent: chat::frames(s.chunks),
        }
    }

    /// What lines send, at a time.
    pub open spec fn lines(self, lines: Seq<Seq<char>>, now: i64) -> ChatStreamStepV
        decreases lines.len(),
    {
        if lines.len() == 0 {
            ChatStreamStepV { next: self, sent: Seq::empty() }
        } else {
            let before = self.lines(lines.drop_last(), now);
            let last = before.next.line(lines.last(), now);
            ChatStreamStepV { next: last.next, sent: before.sent + last.sent }
        }
    }

    /// What a piece of the response sends, at a time: a comment where the stream began and this
    /// piece says nothing, so that the client does not give up.
    pub open spec fn chunk(self, chunk: Seq<u8>, now: i64) -> ChatStreamStepV {
        let fed = ChatStreamV { buffer: http_util::last_line(self.buffer + chunk), ..self };
        let s = fed.lines(http_util::line_texts(http_util::lines(self.buffer + chunk)), now);
        if s.next.started && s.sent.len() == 0 {
            ChatStreamStepV { next: s.next, sent: seq![": keepalive\n\n"@] }
        } else {
            s
        }
    }

    /// What is left when the response ends: a line too.
    pub open spec fn rest(self, now: i64) -> ChatStreamStepV {
        if self.buffer.len() > 0 {
            self.line(text::utf8_lossy(self.buffer), now)
        } else {
            ChatStreamStepV { next: self, sent: Seq::empty() }
        }
    }

    /// A failure told: as the answer where nothing was sent, else as a frame.
    pub open spec fn failed(self, f: FinalErrorV) -> EndingV {
        if self.started {
            EndingV { sent: seq![http_util::data_frame(f.body)], failure: None, resets_timeouts: false }
        } else {
            EndingV { sent: Seq::empty(), failure: Some(f), resets_timeouts: false }
        }
    }

    /// The end behind the last line.
    pub open spec fn conclusion(self) -> EndingV {
        match stream_failure(self.translator) {
            Some(f) => self.failed(f),
            None => EndingV { sent: seq!["data: [DONE]\n\n"@], failure: None, resets_timeouts: true },
        }
    }

    /// How the stream ends when the response does.
    pub open spec fn ending(self, now: i64) -> EndingV {
        let s = self.rest(now);
        let c = s.next.conclusion();
        EndingV { sent: s.sent + c.sent, ..c }
    }

    /// How the stream ends when the upstream is silent.
    pub open spec fn idle_ending(self, consecutive: usize) -> EndingV {
        if self.started {
            EndingV {
                sent: seq![
                    http_util::data_frame(
                        plain_error(http_util::timeout_text(consecutive), "rate_limit_error"@).with(
                            "retry_after"@,
                            json::int_json(5),
                        ),
                    ),
                ],
                failure: None,
                resets_timeouts: false,
            }
        } else {
            EndingV { sent: Seq::empty(), failure: Some(idle_failure(consecutive)), resets_timeouts: false }
        }
    }

    /// How the stream ends when the connection breaks.
    pub open spec fn broken_ending(self, e: Seq<char>) -> EndingV {
        if self.started {
            EndingV {
                sent: seq![http_util::data_frame(plain_error(e, "proxy_error"@))],
                failure: None,
                resets_timeouts: false,
            }
        } else {
            EndingV { sent: Seq::empty(), failure: Some(connection_failure(e)), resets_timeouts: false }
        }
    }
}

impl ChatStream {
    pub open spec fn view(&self) -> ChatStreamV {
        ChatStreamV { translator: self.translator@, buffer: self.buffer@, started: self.started }
    }

    pub fn new(model: &str, completion_id: &str, created: i64) -> (r: Self)
        ensures
            r@ == ChatStreamV::start(model@, completion_id@, created),
    {
        let r = ChatStream {
            translator: ChatSseTranslator::new(model, completion_id, created),
            buffer: Vec::new(),
            started: false,
        };
        assert(r.buffer@ =~= Seq::<u8>::empty());
        r
    }

    fn on_line(&mut self, line: &str, now: i64) -> (r: Vec<String>)
        ensures
            final(self)@ == old(self)@.line(line@, now).next,
            text::texts(r@) == old(self)@.line(line@, now).sent,
    {
        let ghost chunks = self@.translator.line(line@, now).chunks;
        let out = self.translator.parse_line_at(line, now);
        assert(chat::frames(chunks).len() == chunks.len());
        assert(text::texts(out@).len() == out@.len());
        if out.len() > 0 {
            self.started = true;
        }
        out
    }

    /// Takes a piece of the response at a time, in seconds since 1970, and gives what is sent.
    pub fn on_chunk_at(&mut self, chunk: &[u8], now: i64) -> (r: Vec<String>)
        ensures
            final(self)@ == old(self)@.chunk(chunk@, now).next,
            text::texts(r@) == old(self)@.chunk(chunk@, now).sent,
    {
        let ghost before = self@;
        let mut buf: Vec<u8> = Vec::new();
        std::mem::swap(&mut self.buffer, &mut buf);
        buf.extend_from_slice(chunk);
        assert(buf@ =~= before.buffer + chunk@);
        let mut lines = no_texts();
        take_lines(&mut buf, &mut lines);
        self.buffer = buf;
        let ghost fed = self@;
        let ghost all = http_util::line_texts(http_util::lines(before.buffer + chunk@));
        assert(text::texts(lines@) =~= all);
        let mut out = no_texts();
        let mut i: usize = 0;
        assert(all.take(0) =~= Seq::<Seq<char>>::empty());
        while i < lines.len()
            invariant
                i <= lines@.len(),
                all == text::texts(lines@),
                self@ == fed.lines(all.take(i as int), now).next,
                text::texts(out@) == fed.lines(all.take(i as int), now).sent,
            decreases lines.len() - i,
        {
            assert(all.take(i + 1).drop_last() =~= all.take(i as int));
            assert(all.take(i + 1).last() == all[i as int]);
            let more = self.on_line(lines[i].as_str(), now);
            append_texts(&mut out, more);
            i = i + 1;
        }
        assert(all.take(i as int) =~= all);
        assert(text::texts(out@).len() == out@.len());
        if self.started && out.len() == 0 {
            let r = one_text(": keepalive\n\n".to_owned());
            return r;
        }
        out
    }

    /// Takes a piece of the response and gives what is sent.
    pub fn on_chunk(&mut self, chunk: &[u8]) -> (r: Vec<String>)
        ensures
            exists|now: i64|
                0 <= now && final(self)@ == (#[trigger] old(self)@.chunk(chunk@, now)).next && text::texts(r@)
                    == old(self)@.chunk(chunk@, now).sent,
    {
        self.on_chunk_at(chunk, now_unix())
    }

    fn fail(&self, f: FinalError) -> (r: Ending)
        ensures
            r@ == self@.failed(f@),
    {
        if self.started {
            Ending { sent: one_text(sse_data(&f.body)), failure: None, resets_timeouts: false }
        } else {
            Ending { sent: no_texts(), failure: Some(f), resets_timeouts: false }
        }
    }

    fn conclude(&self) -> (r: Ending)
        ensures
            r@ == self@.conclusion(),
    {
        if let Some(e) = &self.translator.upstream_error {
            return self.fail(FinalError { status: e.status, body: e.body.clone() });
        }
        if let Some(detail) = self.translator.incomplete_detail() {
            let e = incomplete_upstream_error(detail);
            return self.fail(FinalError { status: e.status, body: e.body });
        }
        if self.translator.output_tokens == 0 {
            return self.fail(FinalError { status: 429, body: empty_response_body() });
        }
        Ending {
            sent: one_text(ChatSseTranslator::done_event().to_owned()),
            failure: None,
            resets_timeouts: true,
        }
    }

    /// Ends the stream when the response does, at a time.
    pub fn on_end_at(&mut self, now: i64) -> (r: Ending)
        ensures
            final(self)@ == old(self)@.rest(now).next,
            r@ == old(self)@.ending(now),
    {
        let mut out = no_texts();
        if self.buffer.len() > 0 {
            let rest = rest_text(&self.buffer);
            out = self.on_line(rest.as_str(), now);
        }
        let e = self.conclude();
        append_texts(&mut out, e.sent);
        Ending { sent: out, failure: e.failure, resets_timeouts: e.resets_timeouts }
    }

    /// Ends the stream when the response does.
    pub fn on_end(&mut self) -> (r: Ending)
        ensures
            exists|now: i64|
                0 <= now && final(self)@ == (#[trigger] old(self)@.rest(now)).next && r@ == old(self)@.ending(now),
    {
        self.on_end_at(now_unix())
    }

    /// Ends the stream when the upstream is silent.
    pub fn on_idle(&self, consecutive: usize) -> (r: Ending)
        ensures
            r@ == self@.idle_ending(consecutive),
    {
        if self.started {
            let body = make_plain_error(timeout_message(consecutive).as_str(), "rate_limit_error").with_int(
                "retry_after",
                5,
            );
            Ending { sent: one_text(sse_data(&body)), failure: None, resets_timeouts: false }
        } else {
            Ending { sent: no_texts(), failure: Some(make_idle_failure(consecutive)), resets_timeouts: false }
        }
    }

    /// Ends the stream when the connection breaks.
    pub fn on_broken(&self, e: &str) -> (r: Ending)
        ensures
            r@ == self@.broken_ending(e@),
    {
        if self.started {
            Ending {
                sent: one_text(sse_data(&make_plain_error(e, "proxy_error"))),
                failure: None,
                resets_timeouts: false,
            }
        } else {
            Ending { sent: no_texts(), failure: Some(make_connection_failure(e)), resets_timeouts: false }
        }
    }
}

// ── laws ───────────────────────────────────────────────────────

impl ChatStreamV {
    /// What a piece of the response says, at a time, without a comment.
    pub open spec fn told(self, chunk: Seq<u8>, now: i64) -> ChatStreamStepV {
        (ChatStreamV { buffer: http_util::last_line(self.buffer + chunk), ..self }).lines(
            http_util::line_texts(http_util::lines(self.buffer + chunk)),
            now,
        )
    }

    spec fn with_buffer(self, buffer: Seq<u8>) -> ChatStreamV {
        ChatStreamV { buffer, ..self }
    }
}

proof fn lemma_lines_buffer(s: ChatStreamV, buffer: Seq<u8>, lines: Seq<Seq<char>>, now: i64)
    ensures
        s.with_buffer(buffer).lines(lines, now).next == s.lines(lines, now).next.with_buffer(buffer),
        s.with_buffer(buffer).lines(lines, now).sent == s.lines(lines, now).sent,
        s.lines(lines, now).next.buffer == s.buffer,
    decreases lines.len(),
{
    if lines.len() > 0 {
        lemma_lines_buffer(s, buffer, lines.drop_last(), now);
    }
}

proof fn lemma_lines_sum(s: ChatStreamV, a: Seq<Seq<char>>, b: Seq<Seq<char>>, now: i64)
    ensures
        s.lines(a + b, now).next == s.lines(a, now).next.lines(b, now).next,
        s.lines(a + b, now).sent == s.lines(a, now).sent + s.lines(a, now).next.lines(b, now).sent,
    decreases b.len(),
{
    if b.len() == 0 {
        assert(a + b =~= a);
        assert(s.lines(a, now).sent + Seq::<Seq<char>>::empty() =~= s.lines(a, now).sent);
    } else {
        lemma_lines_sum(s, a, b.drop_last(), now);
        assert((a + b).drop_last() =~= a + b.drop_last());
        assert((a + b).last() == b.last());
        assert(s.lines(a + b, now).sent =~= s.lines(a, now).sent + s.lines(a, now).next.lines(b, now).sent);
    }
}

/// It makes no difference to what is said how the upstream response was cut into pieces.
pub proof fn cuts_make_no_difference(s: ChatStreamV, a: Seq<u8>, b: Seq<u8>, now: i64)
    ensures
        s.told(a + b, now).next == s.told(a, now).next.told(b, now).next,
        s.told(a + b, now).sent == s.told(a, now).sent + s.told(a, now).next.told(b, now).sent,
{
    let x = s.told(a, now);
    let fed = s.with_buffer(http_util::last_line(s.buffer + a));
    let la = http_util::line_texts(http_util::lines(s.buffer + a));
    lemma_lines_buffer(fed, s.buffer, la, now);
    let lb = http_util::line_texts(http_util::lines(x.next.buffer + b));
    http_util::lines_ignore_cuts(s.buffer + a, b);
    assert(s.buffer + a + b =~= s.buffer + (a + b));
    assert(http_util::line_texts(http_util::lines(s.buffer + (a + b))) =~= la + lb);
    let last = http_util::last_line(s.buffer + (a + b));
    lemma_lines_sum(s.with_buffer(last), la, lb, now);
    lemma_lines_buffer(fed, last, la, now);
    assert(fed.with_buffer(last) == s.with_buffer(last));
}

/// A comment is all that a piece of the response sends besides what it says, and only where it
/// says nothing and the stream began.
pub proof fn comments_fill_silence(s: ChatStreamV, chunk: Seq<u8>, now: i64)
    ensures
        s.chunk(chunk, now).next == s.told(chunk, now).next,
        s.told(chunk, now).sent.len() > 0 ==> s.chunk(chunk, now).sent == s.told(chunk, now).sent,
        s.told(chunk, now).sent.len() == 0 ==> s.chunk(chunk, now).sent == (if s.told(chunk, now).next.started {
            seq![": keepalive\n\n"@]
        } else {
            Seq::empty()
        }),
{
}

proof fn lemma_started(s: ChatStreamV, lines: Seq<Seq<char>>, now: i64)
    ensures
        s.lines(lines, now).next.started == (s.started || s.lines(lines, now).sent.len() > 0),
    decreases lines.len(),
{
    if lines.len() > 0 {
        lemma_started(s, lines.drop_last(), now);
        let before = s.lines(lines.drop_last(), now);
        let t = before.next.translator.line(lines.last(), now);
        assert(chat::frames(t.chunks).len() == t.chunks.len());
    }
}

/// At its end a stream is answered with a failure exactly where nothing was ever sent of it.
pub proof fn failure_or_stream(
    model: Seq<char>,
    completion_id: Seq<char>,
    created: i64,
    lines: Seq<Seq<char>>,
    now: i64,
    rest: Seq<u8>,
)
    ensures
        ({
            let s = ChatStreamV::start(model, completion_id, created).lines(lines, now);
            let end = (ChatStreamV { buffer: rest, ..s.next }).ending(now);
            end.failure is Some <==> (s.sent + end.sent).len() == 0
        }),
{
    let s = ChatStreamV::start(model, completion_id, created).lines(lines, now);
    lemma_started(ChatStreamV::start(model, completion_id, created), lines, now);
    let at_end = ChatStreamV { buffer: rest, ..s.next };
    if rest.len() > 0 {
        let t = at_end.translator.line(text::utf8_lossy(rest), now);
        assert(chat::frames(t.chunks).len() == t.chunks.len());
    }
}

/// A stream is told as whole, with the frame that says so, exactly where the upstream told its
/// end, no connection failed, no error came, and there was output.
pub proof fn only_whole_streams_are_done(s: ChatStreamV)
    ensures
        stream_failure(s.translator) is None <==> s.translator.upstream_error is None && s.translator.saw_finish
            && s.translator.finish_reason != Some("upstream_error"@) && s.translator.output_tokens != 0,
        s.conclusion().resets_timeouts == (stream_failure(s.translator) is None),
        stream_failure(s.translator) is None ==> s.conclusion().sent == seq!["data: [DONE]\n\n"@],
        stream_failure(s.translator) matches Some(f) ==> s.conclusion() == s.failed(f),
{
}

/// A stream, or an answer, that was cut off fails with 502 and a time to wait; one without output
/// with 429 and a time to wait.
pub proof fn failures_can_be_retried(t: ChatV, g: GatherV)
    requires
        t.upstream_error is None,
        g.upstream_error is None,
    ensures
        t.incomplete() is Some ==> (stream_failure(t) matches Some(f) && f.status == 502 && f.body.get(
            "retry_after"@,
        ) == Some(json::int_json(10)) && json::str_in(f.body.get2("error"@, "type"@)) == Some("upstream_error"@)),
        t.incomplete() is None && t.output_tokens == 0 ==> (stream_failure(t) matches Some(f) && f.status == 429
            && f.body.get("retry_after"@) == Some(json::int_json(10)) && json::str_in(f.body.get2("error"@, "type"@))
            == Some("rate_limit_error"@)),
        g.incomplete() is Some ==> (gathered_failure(g) matches Some(f) && f.status == 502 && f.body.get(
            "retry_after"@,
        ) == Some(json::int_json(10)) && json::str_in(f.body.get2("error"@, "type"@)) == Some("upstream_error"@)),
        g.incomplete() is None && reported_output(g) == 0 ==> (gathered_failure(g) matches Some(f) && f.status == 429
            && f.body.get("retry_after"@) == Some(json::int_json(10)) && json::str_in(f.body.get2("error"@, "type"@))
            == Some("rate_limit_error"@)),
        gathered_failure(g) is None <==> g.saw_finish && g.finish_reason != "upstream_error"@ && reported_output(g)
            != 0,
{
    http_util::empty_response_members();
    if let Some(detail) = t.incomplete() {
        let message = "Upstream stream ended without a completion finish ("@ + detail + ") — response was truncated"@;
        errors::error_body_members(message, "upstream_error"@, None, Some(10));
    }
    if let Some(detail) = g.incomplete() {
        let message = "Upstream stream ended without a completion finish ("@ + detail + ") — response was truncated"@;
        errors::error_body_members(message, "upstream_error"@, None, Some(10));
    }
}

} // verus!
