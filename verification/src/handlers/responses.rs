//! `POST /v1/responses`.

use vstd::prelude::*;
use crate::cc;
use crate::cc::build_cc_request_on;
use crate::config;
use crate::config::{Config, ConfigV};
use crate::errors;
use crate::errors::{incomplete_upstream_error, map_cc_error, MappedError, MappedErrorV};
use crate::fingerprint::{DeviceProfile, DeviceProfileV};
use crate::handlers::chat;
use crate::handlers::chat::{stream_wanted, too_large_message};
use crate::handlers::gather::{Gather, GatherV};
use crate::http_util;
use crate::http_util::{
    json_response, rest_text, take_lines, timeout_message, BodyError, Ending, EndingV, FinalError, FinalErrorV, Reply,
    ReplyV,
};
use crate::json::{copy_opt_json, no_json, Json, JsonV};
use crate::text;
use crate::text::{append_texts, cat, no_texts, one_text};
use crate::translate::responses;
use crate::translate::responses::{
    build_responses_object_with, responses_id, EventV, OutputIds, OutputIdsV, ResponsesSseTranslator, ResponsesV,
};
use crate::translate::responses_request;
use crate::translate::responses_request::convert_responses_with;
use crate::util;
use crate::util::{date_str_utc, get_api_key, get_truthy, now_unix, random_uuid, random_uuids};

verus! {

// ── errors ─────────────────────────────────────────────────────

/// An error in the form of this endpoint.
pub open spec fn error_json(ty: Seq<char>, message: Seq<char>, retry_after: Option<u64>) -> JsonV {
    JsonV::obj().with(
        "error"@,
        JsonV::obj().with("message"@, JsonV::Str(message)).with("type"@, JsonV::Str(ty)).with(
            "code"@,
            JsonV::Null,
        ).with("param"@, JsonV::Null),
    ).with_some("retry_after"@, errors::count_json(retry_after))
}

pub open spec fn error_reply(status: u16, ty: Seq<char>, message: Seq<char>, retry_after: Option<u64>) -> ReplyV {
    http_util::json_reply(status, error_json(ty, message, retry_after))
}

fn make_error(ty: &str, message: &str, retry_after: Option<u64>) -> (r: Json)
    ensures
        r@ == error_json(ty@, message@, retry_after),
{
    Json::obj().with(
        "error",
        Json::obj().with_str("message", message).with_str("type", ty).with("code", Json::Null).with(
            "param",
            Json::Null,
        ),
    ).with_some("retry_after", crate::errors::count_value(retry_after))
}

fn responses_error(status: u16, ty: &str, message: &str, retry_after: Option<u64>) -> (r: Reply)
    ensures
        r@ == error_reply(status, ty@, message@, retry_after),
{
    json_response(status, &make_error(ty, message, retry_after))
}

pub open spec fn mapped_reply(e: MappedErrorV) -> ReplyV {
    error_reply(e.status, e.error_type(), e.error_message(), e.retry_after())
}

fn error_from_mapped(e: &MappedError) -> (r: Reply)
    ensures
        r@ == mapped_reply(e@),
{
    responses_error(e.status, e.error_type().as_str(), e.error_message().as_str(), e.retry_after())
}

/// The reply to an upstream response with an error status.
pub fn upstream_status_reply(status: u16, body: &str) -> (r: Reply)
    ensures
        r@ == mapped_reply(errors::response_error(status, Some(body@))),
{
    error_from_mapped(&map_cc_error(status, Some(body)))
}

/// The reply where the upstream cannot be reached, or the connection to it broke.
pub fn connection_reply(e: &str) -> (r: Reply)
    ensures
        r@ == error_reply(502, "proxy_error"@, chat::connection_text(e@), Some(10)),
{
    responses_error(502, "proxy_error", cat("Upstream error: ", e).as_str(), Some(10))
}

/// The reply where the upstream was silent.
pub fn idle_reply(consecutive: usize) -> (r: Reply)
    ensures
        r@ == error_reply(429, "rate_limit_error"@, http_util::timeout_text(consecutive), Some(5)),
{
    responses_error(429, "rate_limit_error", timeout_message(consecutive).as_str(), Some(5))
}

// ── before the upstream is asked ───────────────────────────────

/// A request that is ready to be sent upstream.
pub struct ResponsesPlan {
    pub api_key: String,
    pub stream: bool,
    pub model: String,
    pub response_id: String,
    pub created: i64,
    /// What the response repeats of the request.
    pub echo: Json,
    pub cc_body: Json,
    pub prompt_cache_key: Option<String>,
}

/// The model of such a request.
pub struct ResponsesPlanV {
    pub api_key: Seq<char>,
    pub stream: bool,
    pub model: Seq<char>,
    pub response_id: Seq<char>,
    pub created: i64,
    pub echo: JsonV,
    pub cc_body: JsonV,
    pub prompt_cache_key: Option<Seq<char>>,
}

impl ResponsesPlan {
    pub open spec fn view(&self) -> ResponsesPlanV {
        ResponsesPlanV {
            api_key: self.api_key@,
            stream: self.stream,
            model: self.model@,
            response_id: self.response_id@,
            created: self.created,
            echo: self.echo@,
            cc_body: self.cc_body@,
            prompt_cache_key: text::text_opt(self.prompt_cache_key),
        }
    }
}

/// What a response repeats of its request.
pub open spec fn echo_of(req: JsonV) -> JsonV {
    JsonV::obj().with("instructions"@, req.or_null("instructions"@)).with(
        "max_output_tokens"@,
        req.or_null("max_output_tokens"@),
    ).with_some("temperature"@, req.get("temperature"@)).with_some("top_p"@, req.get("top_p"@)).with(
        "reasoning"@,
        cc::opt_or_null(util::truthy_member(req, "reasoning"@)),
    ).with(
        "tool_choice"@,
        JsonV::Str(req.str_or("tool_choice"@, "auto"@)),
    ).with(
        "tools"@,
        match util::truthy_member(req, "tools"@) {
            Some(t) => t,
            None => JsonV::Array(Seq::empty()),
        },
    )
}

fn make_echo(req: &Json) -> (r: Json)
    ensures
        r@ == echo_of(req@),
{
    let reasoning = match get_truthy(req, "reasoning") {
        Some(j) => j.clone(),
        None => Json::Null,
    };
    let tools = match get_truthy(req, "tools") {
        Some(j) => j.clone(),
        None => Json::array(no_json()),
    };
    Json::obj().with("instructions", req.or_null("instructions")).with(
        "max_output_tokens",
        req.or_null("max_output_tokens"),
    ).with_some("temperature", copy_opt_json(req.get("temperature"))).with_some(
        "top_p",
        copy_opt_json(req.get("top_p")),
    ).with("reasoning", reasoning).with_str("tool_choice", req.str_or("tool_choice", "auto")).with("tools", tools)
}

/// Whether a request refers to an earlier response.
pub open spec fn names_earlier(req: JsonV) -> bool {
    util::truthy_member(req, "previous_response_id"@) is Some
}

/// Whether a request asks for its response to be kept.
pub open spec fn asks_to_store(req: JsonV) -> bool {
    util::truthy_member(req, "store"@) is Some
}

pub open spec fn unsupported_text(member: Seq<char>) -> Seq<char> {
    member + " is not supported (this proxy is stateless); send the full input each turn"@
}

/// The reply to a request that counts on what a stateless proxy does not keep.
pub open spec fn unsupported_reply(member: Seq<char>) -> ReplyV {
    error_reply(400, "invalid_request_error"@, unsupported_text(member), None)
}

fn unsupported(member: &str) -> (r: Reply)
    ensures
        r@ == unsupported_reply(member@),
{
    let message = cat(member, " is not supported (this proxy is stateless); send the full input each turn");
    responses_error(400, "invalid_request_error", message.as_str(), None)
}

/// What comes of a request, at a time and on a date. The first UUID makes the identifier of the
/// response; the others those of calls in the input that name none, one for each item.
pub open spec fn plan_of(
    cfg: ConfigV,
    profile: DeviceProfileV,
    body: Result<JsonV, BodyError>,
    api_key: Option<Seq<char>>,
    uuid: Seq<char>,
    uuids: Seq<Seq<char>>,
    now: i64,
    date: Seq<char>,
) -> Result<ResponsesPlanV, ReplyV> {
    match body {
        Err(BodyError::TooLarge(limit)) => Err(
            error_reply(413, "invalid_request_error"@, chat::too_large_text(limit), None),
        ),
        Err(BodyError::InvalidJson) => Err(error_reply(400, "invalid_request_error"@, "Invalid JSON body"@, None)),
        Ok(req) => if names_earlier(req) {
            Err(unsupported_reply("previous_response_id"@))
        } else if asks_to_store(req) {
            Err(unsupported_reply("store"@))
        } else {
            match api_key {
                None => Err(error_reply(401, "authentication_error"@, chat::missing_key_text(), None)),
                Some(key) => {
                    let chat_req = responses_request::chat_request(req, uuids);
                    if chat_req.items("messages"@).len() == 0 {
                        Err(error_reply(400, "invalid_request_error"@, "input is required"@, None))
                    } else {
                        Ok(
                            ResponsesPlanV {
                                api_key: key,
                                stream: config::bool_or(chat_req, "stream"@, false),
                                model: cc::model_of(chat_req),
                                response_id: responses::id_of("resp_"@, uuid),
                                created: now,
                                echo: echo_of(req),
                                cc_body: cc::cc_request(cfg, profile, chat_req, date),
                                prompt_cache_key: chat_req.get_nonempty("prompt_cache_key"@),
                            },
                        )
                    }
                },
            }
        },
    }
}

/// How many input items a body has.
pub open spec fn input_items(body: Result<JsonV, BodyError>) -> nat {
    match body {
        Ok(req) => req.items("input"@).len(),
        Err(_) => 0,
    }
}

/// The model of a plan, or of the reply in its place.
pub open spec fn plan_model(r: Result<ResponsesPlan, Reply>) -> Result<ResponsesPlanV, ReplyV> {
    match r {
        Ok(p) => Ok(p@),
        Err(e) => Err(e@),
    }
}

/// Turns a request into one for the upstream, at a time and on a date, with a UUID for the
/// response and one for each input item. The two headers are those that can hold the API key.
pub fn plan_with(
    cfg: &Config,
    profile: &DeviceProfile,
    body: Result<Json, BodyError>,
    authorization: Option<&str>,
    x_api_key: Option<&str>,
    uuid: &str,
    uuids: &Vec<String>,
    now: i64,
    date: &str,
) -> (r: Result<ResponsesPlan, Reply>)
    requires
        uuids@.len() == input_items(chat::body_model(body)),
    ensures
        plan_model(r) == plan_of(
            cfg@,
            profile@,
            chat::body_model(body),
            util::api_key_of(text::str_opt(authorization), text::str_opt(x_api_key)),
            uuid@,
            text::texts(uuids@),
            now,
            date@,
        ),
{
    let req = match body {
        Ok(j) => j,
        Err(BodyError::TooLarge(limit)) => {
            let message = too_large_message(limit);
            return Err(responses_error(413, "invalid_request_error", message.as_str(), None));
        },
        Err(BodyError::InvalidJson) => {
            return Err(responses_error(400, "invalid_request_error", "Invalid JSON body", None));
        },
    };
    if get_truthy(&req, "previous_response_id").is_some() {
        return Err(unsupported("previous_response_id"));
    }
    if get_truthy(&req, "store").is_some() {
        return Err(unsupported("store"));
    }
    let api_key = match get_api_key(authorization, x_api_key) {
        Some(k) => k,
        None => {
            return Err(
                responses_error(
                    401,
                    "authentication_error",
                    "Missing API key. Send in Authorization: Bearer <key> or x-api-key header",
                    None,
                ),
            );
        },
    };
    let chat_req = convert_responses_with(&req, uuids);
    if chat_req.items("messages").len() == 0 {
        return Err(responses_error(400, "invalid_request_error", "input is required", None));
    }
    let model = match chat_req.get_nonempty("model") {
        Some(m) => m.to_owned(),
        None => "deepseek/deepseek-v4-flash".to_owned(),
    };
    let prompt_cache_key = match chat_req.get_nonempty("prompt_cache_key") {
        Some(k) => Some(k.to_owned()),
        None => None,
    };
    Ok(
        ResponsesPlan {
            api_key,
            stream: stream_wanted(&chat_req),
            model,
            response_id: responses_id("resp_", uuid),
            created: now,
            echo: make_echo(&req),
            cc_body: build_cc_request_on(cfg, profile, &chat_req, date),
            prompt_cache_key,
        },
    )
}

/// Turns a request into one for the upstream.
pub fn plan(
    cfg: &Config,
    profile: &DeviceProfile,
    body: Result<Json, BodyError>,
    authorization: Option<&str>,
    x_api_key: Option<&str>,
) -> (r: Result<ResponsesPlan, Reply>)
    ensures
        exists|uuid: Seq<char>, uuids: Seq<Seq<char>>, now: i64, date: Seq<char>|
            0 <= now && util::uuid_text(uuid) && util::uuid_list(uuids, input_items(chat::body_model(body)))
                && util::date_text(date) && plan_model(r) == #[trigger] plan_of(
                cfg@,
                profile@,
                chat::body_model(body),
                util::api_key_of(text::str_opt(authorization), text::str_opt(x_api_key)),
                uuid,
                uuids,
                now,
                date,
            ),
{
    let uuid = random_uuid();
    let n: usize = match &body {
        Ok(j) => j.items("input").len(),
        Err(_) => 0,
    };
    let uuids = random_uuids(n);
    let date = date_str_utc();
    plan_with(cfg, profile, body, authorization, x_api_key, uuid.as_str(), &uuids, now_unix(), date.as_str())
}

// ── answers that are no stream ─────────────────────────────────

/// Why what the upstream said is no response: an error, an end that did not come, or no output.
pub open spec fn gathered_failure(g: GatherV) -> Option<ReplyV> {
    match g.upstream_error {
        Some(e) => Some(mapped_reply(e)),
        None => match g.incomplete() {
            Some(detail) => Some(mapped_reply(errors::incomplete_error(detail))),
            None => if g.without_output() {
                Some(
                    error_reply(
                        429,
                        "rate_limit_error"@,
                        "Empty response from upstream (zero output tokens)"@,
                        Some(10),
                    ),
                )
            } else {
                None
            },
        },
    }
}

/// The reply for what the upstream said, completed at a time.
pub open spec fn gathered_reply(
    g: GatherV,
    response_id: Seq<char>,
    model: Seq<char>,
    created: i64,
    echo: JsonV,
    completed: i64,
    ids: OutputIdsV,
) -> ReplyV {
    match gathered_failure(g) {
        Some(r) => r,
        None => http_util::json_reply(
            200,
            responses::response_object(
                response_id,
                model,
                created,
                completed,
                g.full_text,
                responses::output_of(g.full_text, g.thinking, g.tool_calls, ids),
                g.usage,
                echo.with("finishReason"@, JsonV::Str(g.finish_reason)),
            ),
        ),
    }
}

/// The reply for what the upstream said, completed at a time, with the UUIDs for the identifiers
/// of output items; and whether it is a response.
pub fn reply_with(
    g: &Gather,
    response_id: &str,
    model: &str,
    created: i64,
    echo: &Json,
    completed: i64,
    ids: &OutputIds,
) -> (r: (Reply, bool))
    requires
        ids.calls@.len() == g.tool_calls@.len(),
    ensures
        r.0@ == gathered_reply(g@, response_id@, model@, created, echo@, completed, ids@),
        r.1 == (gathered_failure(g@) is None),
{
    if let Some(e) = &g.upstream_error {
        return (error_from_mapped(e), false);
    }
    if let Some(detail) = g.incomplete_detail() {
        return (error_from_mapped(&incomplete_upstream_error(detail)), false);
    }
    if g.nothing() {
        return (
            responses_error(
                429,
                "rate_limit_error",
                "Empty response from upstream (zero output tokens)",
                Some(10),
            ),
            false,
        );
    }
    let opts = echo.clone().with_str("finishReason", g.finish_reason.as_str());
    let object = build_responses_object_with(
        response_id,
        model,
        created,
        g.full_text.as_str(),
        g.thinking.as_str(),
        Some(&g.tool_calls),
        g.usage.as_ref(),
        &opts,
        completed,
        ids,
    );
    (json_response(200, &object), true)
}

/// The reply for what the upstream said, completed now, with random identifiers; and whether it
/// is a response.
pub fn reply(g: &Gather, response_id: &str, model: &str, created: i64, echo: &Json) -> (r: (Reply, bool))
    ensures
        exists|completed: i64, ids: OutputIdsV|
            0 <= completed && ids.random(g@.tool_calls.len()) && r.0@ == #[trigger] gathered_reply(
                g@,
                response_id@,
                model@,
                created,
                echo@,
                completed,
                ids,
            ),
        r.1 == (gathered_failure(g@) is None),
{
    let ids = OutputIds::random(g.tool_calls.len());
    reply_with(g, response_id, model, created, echo, now_unix(), &ids)
}

// ── streams ────────────────────────────────────────────────────

/// A stream that is being translated.
pub struct ResponsesStream {
    pub translator: ResponsesSseTranslator,
    pub buffer: Vec<u8>,
}

/// The model of such a stream.
pub struct ResponsesStreamV {
    pub translator: ResponsesV,
    pub buffer: Seq<u8>,
}

/// What something sends, and the stream after it.
pub struct ResponsesStreamStepV {
    pub next: ResponsesStreamV,
    pub sent: Seq<Seq<char>>,
}

/// Why a stream that sent nothing is answered with an error: an error event, an end that did not
/// come, or no output.
pub open spec fn silent_failure(t: ResponsesV) -> Option<FinalErrorV> {
    match t.upstream_error {
        Some(e) => Some(FinalErrorV { status: e.status, body: e.body }),
        None => match t.incomplete() {
            Some(detail) => {
                let e = errors::incomplete_error(detail);
                Some(
                    FinalErrorV {
                        status: 502,
                        body: error_json(e.error_type(), e.error_message(), e.retry_after()),
                    },
                )
            },
            None => if t.output_tokens == 0 {
                Some(
                    FinalErrorV {
                        status: 429,
                        body: error_json(
                            "rate_limit_error"@,
                            "Empty response from upstream (zero output tokens)"@,
                            Some(10),
                        ),
                    },
                )
            } else {
                None
            },
        },
    }
}

impl ResponsesStreamV {
    pub open spec fn start(model: Seq<char>, response_id: Seq<char>, created: i64) -> ResponsesStreamV {
        ResponsesStreamV { translator: ResponsesV::start(model, response_id, created), buffer: Seq::empty() }
    }

    /// What a line sends; the two UUIDs make identifiers.
    pub open spec fn line(self, line: Seq<char>, uuid: Seq<char>, call_uuid: Seq<char>) -> ResponsesStreamStepV {
        let s = self.translator.line(line, uuid, call_uuid);
        ResponsesStreamStepV {
            next: ResponsesStreamV { translator: s.next, ..self },
            sent: responses::texts_from(self.translator.seq, s.events),
        }
    }

    /// What lines send, with two UUIDs for each.
    pub open spec fn lines(
        self,
        lines: Seq<Seq<char>>,
        uuids: Seq<Seq<char>>,
        call_uuids: Seq<Seq<char>>,
    ) -> ResponsesStreamStepV
        decreases lines.len(),
    {
        if lines.len() == 0 {
            ResponsesStreamStepV { next: self, sent: Seq::empty() }
        } else {
            let before = self.lines(lines.drop_last(), uuids, call_uuids);
            let i = lines.len() - 1;
            let last = before.next.line(lines.last(), uuids[i], call_uuids[i]);
            ResponsesStreamStepV { next: last.next, sent: before.sent + last.sent }
        }
    }

    pub open spec fn new_lines(self, chunk: Seq<u8>) -> Seq<Seq<char>> {
        http_util::line_texts(http_util::lines(self.buffer + chunk))
    }

    pub open spec fn fed(self, chunk: Seq<u8>) -> ResponsesStreamV {
        ResponsesStreamV { buffer: http_util::last_line(self.buffer + chunk), ..self }
    }

    /// What is left when the response ends: a line too.
    pub open spec fn rest(self, uuid: Seq<char>, call_uuid: Seq<char>) -> ResponsesStreamStepV {
        if self.buffer.len() > 0 {
            self.line(text::utf8_lossy(self.buffer), uuid, call_uuid)
        } else {
            ResponsesStreamStepV { next: self, sent: Seq::empty() }
        }
    }

    /// The end behind the last line.
    pub open spec fn conclusion(self) -> EndingV {
        let t = self.translator;
        if !t.created_sent && silent_failure(t) is Some {
            EndingV { sent: Seq::empty(), failure: silent_failure(t), resets_timeouts: false }
        } else {
            match t.upstream_error {
                Some(e) => EndingV {
                    sent: responses::texts_from(t.seq, t.failed(e.error_message()).events),
                    failure: None,
                    resets_timeouts: false,
                },
                None => EndingV {
                    sent: responses::texts_from(t.seq, t.finished().events),
                    failure: None,
                    resets_timeouts: true,
                },
            }
        }
    }

    /// How the stream ends when the response does.
    pub open spec fn ending(self, uuid: Seq<char>, call_uuid: Seq<char>) -> EndingV {
        let s = self.rest(uuid, call_uuid);
        let c = s.next.conclusion();
        EndingV { sent: s.sent + c.sent, ..c }
    }

    /// A failure told: as the answer where nothing was sent, else as an event.
    pub open spec fn failed(self, f: FinalErrorV, message: Seq<char>) -> EndingV {
        let t = self.translator;
        if t.created_sent {
            EndingV {
                sent: seq![responses::numbered_text(t.seq, "error"@, (EventV::Error { message }).data())],
                failure: None,
                resets_timeouts: false,
            }
        } else {
            EndingV { sent: Seq::empty(), failure: Some(f), resets_timeouts: false }
        }
    }

    /// How the stream ends when the upstream is silent.
    pub open spec fn idle_ending(self, consecutive: usize) -> EndingV {
        let m = http_util::timeout_text(consecutive);
        self.failed(FinalErrorV { status: 429, body: error_json("rate_limit_error"@, m, Some(5)) }, m)
    }

    /// How the stream ends when the connection breaks.
    pub open spec fn broken_ending(self, e: Seq<char>) -> EndingV {
        self.failed(
            FinalErrorV { status: 502, body: error_json("proxy_error"@, chat::connection_text(e), Some(10)) },
            e,
        )
    }
}

impl ResponsesStream {
    pub open spec fn view(&self) -> ResponsesStreamV {
        ResponsesStreamV { translator: self.translator@, buffer: self.buffer@ }
    }

    pub fn new(model: &str, response_id: &str, created: i64) -> (r: Self)
        ensures
            r@ == ResponsesStreamV::start(model@, response_id@, created),
    {
        let r = ResponsesStream {
            translator: ResponsesSseTranslator::new(model, response_id, created),
            buffer: Vec::new(),
        };
        assert(r.buffer@ =~= Seq::<u8>::empty());
        r
    }

    /// Takes lines, with two UUIDs for each, and gives what is sent.
    pub fn on_lines(&mut self, lines: &Vec<String>, uuids: &Vec<String>, call_uuids: &Vec<String>) -> (r: Vec<String>)
        requires
            uuids@.len() == lines@.len(),
            call_uuids@.len() == lines@.len(),
        ensures
            final(self)@ == old(self)@.lines(
                text::texts(lines@),
                text::texts(uuids@),
                text::texts(call_uuids@),
            ).next,
            text::texts(r@) == old(self)@.lines(
                text::texts(lines@),
                text::texts(uuids@),
                text::texts(call_uuids@),
            ).sent,
    {
        let ghost start = self@;
        let ghost all = text::texts(lines@);
        let ghost a = text::texts(uuids@);
        let ghost b = text::texts(call_uuids@);
        let mut out = no_texts();
        let mut i: usize = 0;
        assert(all.take(0) =~= Seq::<Seq<char>>::empty());
        while i < lines.len()
            invariant
                i <= lines@.len(),
                uuids@.len() == lines@.len(),
                call_uuids@.len() == lines@.len(),
                all == text::texts(lines@),
                a == text::texts(uuids@),
                b == text::texts(call_uuids@),
                self@ == start.lines(all.take(i as int), a, b).next,
                text::texts(out@) == start.lines(all.take(i as int), a, b).sent,
            decreases lines.len() - i,
        {
            assert(all.take(i + 1).drop_last() =~= all.take(i as int));
            assert(all.take(i + 1).last() == all[i as int]);
            let more = self.translator.parse_line_with(lines[i].as_str(), uuids[i].as_str(), call_uuids[i].as_str());
            append_texts(&mut out, more);
            i = i + 1;
        }
        assert(all.take(i as int) =~= all);
        out
    }

    /// Takes a piece of the response and gives what is sent; identifiers are random.
    pub fn on_chunk(&mut self, chunk: &[u8]) -> (r: Vec<String>)
        ensures
            exists|uuids: Seq<Seq<char>>, call_uuids: Seq<Seq<char>>|
                util::uuid_list(uuids, old(self)@.new_lines(chunk@).len()) && util::uuid_list(
                    call_uuids,
                    old(self)@.new_lines(chunk@).len(),
                ) && final(self)@ == (#[trigger] old(self)@.fed(chunk@).lines(
                    old(self)@.new_lines(chunk@),
                    uuids,
                    call_uuids,
                )).next && text::texts(r@) == old(self)@.fed(chunk@).lines(
                    old(self)@.new_lines(chunk@),
                    uuids,
                    call_uuids,
                ).sent,
    {
        let ghost before = self@;
        let mut buf: Vec<u8> = Vec::new();
        std::mem::swap(&mut self.buffer, &mut buf);
        buf.extend_from_slice(chunk);
        assert(buf@ =~= before.buffer + chunk@);
        let mut lines = no_texts();
        take_lines(&mut buf, &mut lines);
        self.buffer = buf;
        let ghost ls = before.new_lines(chunk@);
        assert(text::texts(lines@) =~= ls);
        assert(lines@.len() == text::texts(lines@).len());
        let uuids = random_uuids(lines.len());
        let call_uuids = random_uuids(lines.len());
        self.on_lines(&lines, &uuids, &call_uuids)
    }

    fn silent(&self) -> (r: Option<FinalError>)
        ensures
            match r {
                Some(f) => silent_failure(self@.translator) == Some(f@),
                None => silent_failure(self@.translator) is None,
            },
    {
        if let Some(e) = &self.translator.upstream_error {
            return Some(FinalError { status: e.status, body: e.body.clone() });
        }
        if let Some(detail) = self.translator.incomplete_detail() {
            let e = incomplete_upstream_error(detail);
            let body = make_error(e.error_type().as_str(), e.error_message().as_str(), e.retry_after());
            return Some(FinalError { status: 502, body });
        }
        if self.translator.output_tokens == 0 {
            let body = make_error(
                "rate_limit_error",
                "Empty response from upstream (zero output tokens)",
                Some(10),
            );
            return Some(FinalError { status: 429, body });
        }
        None
    }

    fn conclude(&mut self) -> (r: Ending)
        ensures
            r@ == old(self)@.conclusion(),
    {
        if !self.translator.started() {
            if let Some(f) = self.silent() {
                return Ending { sent: no_texts(), failure: Some(f), resets_timeouts: false };
            }
        }
        let message = match &self.translator.upstream_error {
            Some(e) => Some(e.error_message()),
            None => None,
        };
        match message {
            Some(m) => Ending {
                sent: self.translator.fail(m.as_str()),
                failure: None,
                resets_timeouts: false,
            },
            None => Ending { sent: self.translator.finish(), failure: None, resets_timeouts: true },
        }
    }

    /// Ends the stream when the response does; the two UUIDs make identifiers.
    pub fn on_end_with(&mut self, uuid: &str, call_uuid: &str) -> (r: Ending)
        ensures
            r@ == old(self)@.ending(uuid@, call_uuid@),
    {
        let mut out = no_texts();
        if self.buffer.len() > 0 {
            let rest = rest_text(&self.buffer);
            out = self.translator.parse_line_with(rest.as_str(), uuid, call_uuid);
        }
        let e = self.conclude();
        append_texts(&mut out, e.sent);
        Ending { sent: out, failure: e.failure, resets_timeouts: e.resets_timeouts }
    }

    /// Ends the stream when the response does.
    pub fn on_end(&mut self) -> (r: Ending)
        ensures
            exists|uuid: Seq<char>, call_uuid: Seq<char>|
                util::uuid_text(uuid) && util::uuid_text(call_uuid) && r@ == #[trigger] old(self)@.ending(
                    uuid,
                    call_uuid,
                ),
    {
        let uuid = random_uuid();
        let call_uuid = random_uuid();
        self.on_end_with(uuid.as_str(), call_uuid.as_str())
    }

    fn fail(&mut self, f: FinalError, message: &str) -> (r: Ending)
        ensures
            r@ == old(self)@.failed(f@, message@),
    {
        if self.translator.started() {
            Ending {
                sent: one_text(self.translator.error_event(message)),
                failure: None,
                resets_timeouts: false,
            }
        } else {
            Ending { sent: no_texts(), failure: Some(f), resets_timeouts: false }
        }
    }

    /// Ends the stream when the upstream is silent.
    pub fn on_idle(&mut self, consecutive: usize) -> (r: Ending)
        ensures
            r@ == old(self)@.idle_ending(consecutive),
    {
        let m = timeout_message(consecutive);
        let f = FinalError { status: 429, body: make_error("rate_limit_error", m.as_str(), Some(5)) };
        self.fail(f, m.as_str())
    }

    /// Ends the stream when the connection breaks.
    pub fn on_broken(&mut self, e: &str) -> (r: Ending)
        ensures
            r@ == old(self)@.broken_ending(e@),
    {
        let f = FinalError {
            status: 502,
            body: make_error("proxy_error", cat("Upstream error: ", e).as_str(), Some(10)),
        };
        self.fail(f, e)
    }
}

// ── laws ───────────────────────────────────────────────────────

impl ResponsesStreamV {
    /// What a piece of the response sends, with two UUIDs for each line that it completes.
    pub open spec fn chunk(
        self,
        chunk: Seq<u8>,
        uuids: Seq<Seq<char>>,
        call_uuids: Seq<Seq<char>>,
    ) -> ResponsesStreamStepV {
        self.fed(chunk).lines(self.new_lines(chunk), uuids, call_uuids)
    }

    spec fn with_buffer(self, buffer: Seq<u8>) -> ResponsesStreamV {
        ResponsesStreamV { buffer, ..self }
    }
}

proof fn lemma_lines_buffer(
    s: ResponsesStreamV,
    buffer: Seq<u8>,
    lines: Seq<Seq<char>>,
    u: Seq<Seq<char>>,
    c: Seq<Seq<char>>,
)
    ensures
        s.with_buffer(buffer).lines(lines, u, c).next == s.lines(lines, u, c).next.with_buffer(buffer),
        s.with_buffer(buffer).lines(lines, u, c).sent == s.lines(lines, u, c).sent,
        s.lines(lines, u, c).next.buffer == s.buffer,
    decreases lines.len(),
{
    if lines.len() > 0 {
        lemma_lines_buffer(s, buffer, lines.drop_last(), u, c);
    }
}

proof fn lemma_lines_uuids(
    s: ResponsesStreamV,
    lines: Seq<Seq<char>>,
    u: Seq<Seq<char>>,
    c: Seq<Seq<char>>,
    v: Seq<Seq<char>>,
    d: Seq<Seq<char>>,
)
    requires
        u.len() >= lines.len(),
        v.len() >= lines.len(),
        c.len() >= lines.len(),
        d.len() >= lines.len(),
        u.take(lines.len() as int) == v.take(lines.len() as int),
        c.take(lines.len() as int) == d.take(lines.len() as int),
    ensures
        s.lines(lines, u, c) == s.lines(lines, v, d),
    decreases lines.len(),
{
    if lines.len() > 0 {
        let n = lines.len() - 1;
        assert(u.take(n) =~= u.take(n + 1).take(n));
        assert(v.take(n) =~= v.take(n + 1).take(n));
        assert(c.take(n) =~= c.take(n + 1).take(n));
        assert(d.take(n) =~= d.take(n + 1).take(n));
        assert(u[n] == u.take(n + 1)[n]);
        assert(v[n] == v.take(n + 1)[n]);
        assert(c[n] == c.take(n + 1)[n]);
        assert(d[n] == d.take(n + 1)[n]);
        lemma_lines_uuids(s, lines.drop_last(), u, c, v, d);
    }
}

proof fn lemma_lines_sum(
    s: ResponsesStreamV,
    a: Seq<Seq<char>>,
    b: Seq<Seq<char>>,
    ua: Seq<Seq<char>>,
    ca: Seq<Seq<char>>,
    ub: Seq<Seq<char>>,
    cb: Seq<Seq<char>>,
)
    requires
        ua.len() == a.len(),
        ca.len() == a.len(),
        ub.len() >= b.len(),
        cb.len() >= b.len(),
    ensures
        s.lines(a + b, ua + ub, ca + cb).next == s.lines(a, ua, ca).next.lines(b, ub, cb).next,
        s.lines(a + b, ua + ub, ca + cb).sent == s.lines(a, ua, ca).sent + s.lines(a, ua, ca).next.lines(
            b,
            ub,
            cb,
        ).sent,
    decreases b.len(),
{
    if b.len() == 0 {
        assert(a + b =~= a);
        assert((ua + ub).take(a.len() as int) =~= ua.take(a.len() as int));
        assert((ca + cb).take(a.len() as int) =~= ca.take(a.len() as int));
        lemma_lines_uuids(s, a, ua + ub, ca + cb, ua, ca);
        assert(s.lines(a, ua, ca).sent + Seq::<Seq<char>>::empty() =~= s.lines(a, ua, ca).sent);
    } else {
        lemma_lines_sum(s, a, b.drop_last(), ua, ca, ub, cb);
        assert((a + b).drop_last() =~= a + b.drop_last());
        assert((a + b).last() == b.last());
        assert((ua + ub)[(a + b).len() - 1] == ub[b.len() - 1]);
        assert((ca + cb)[(a + b).len() - 1] == cb[b.len() - 1]);
        assert(s.lines(a + b, ua + ub, ca + cb).sent =~= s.lines(a, ua, ca).sent + s.lines(a, ua, ca).next.lines(
            b,
            ub,
            cb,
        ).sent);
    }
}

/// It makes no difference to what is sent how the upstream response was cut into pieces.
pub proof fn cuts_make_no_difference(
    s: ResponsesStreamV,
    a: Seq<u8>,
    b: Seq<u8>,
    ua: Seq<Seq<char>>,
    ca: Seq<Seq<char>>,
    ub: Seq<Seq<char>>,
    cb: Seq<Seq<char>>,
)
    requires
        ua.len() == s.new_lines(a).len(),
        ca.len() == s.new_lines(a).len(),
        ub.len() == s.chunk(a, ua, ca).next.new_lines(b).len(),
        cb.len() == s.chunk(a, ua, ca).next.new_lines(b).len(),
    ensures
        s.chunk(a + b, ua + ub, ca + cb).next == s.chunk(a, ua, ca).next.chunk(b, ub, cb).next,
        s.chunk(a + b, ua + ub, ca + cb).sent == s.chunk(a, ua, ca).sent + s.chunk(a, ua, ca).next.chunk(
            b,
            ub,
            cb,
        ).sent,
{
    let x = s.chunk(a, ua, ca);
    let la = s.new_lines(a);
    lemma_lines_buffer(s.fed(a), s.buffer, la, ua, ca);
    let lb = x.next.new_lines(b);
    http_util::lines_ignore_cuts(s.buffer + a, b);
    assert(s.buffer + a + b =~= s.buffer + (a + b));
    assert(s.new_lines(a + b) =~= la + lb);
    let last = http_util::last_line(s.buffer + (a + b));
    lemma_lines_sum(s.fed(a + b), la, lb, ua, ca, ub, cb);
    lemma_lines_buffer(s.fed(a), last, la, ua, ca);
    assert(s.fed(a).with_buffer(last) == s.fed(a + b));
    assert(x.next.fed(b) == x.next.with_buffer(last));
}

/// What is sent of a stream are the events of its translation, numbered one by one.
pub proof fn what_is_sent_is_numbered(
    s: ResponsesStreamV,
    lines: Seq<Seq<char>>,
    uuids: Seq<Seq<char>>,
    call_uuids: Seq<Seq<char>>,
)
    ensures
        ({
            let t = s.translator.lines(lines, uuids, call_uuids);
            &&& s.lines(lines, uuids, call_uuids).next.translator == t.next
            &&& s.lines(lines, uuids, call_uuids).sent == responses::texts_from(s.translator.seq, t.events)
        }),
    decreases lines.len(),
{
    if lines.len() > 0 {
        let i = lines.len() - 1;
        what_is_sent_is_numbered(s, lines.drop_last(), uuids, call_uuids);
        responses::numbers_have_no_gap(s.translator, lines.drop_last(), uuids, call_uuids);
        let before = s.translator.lines(lines.drop_last(), uuids, call_uuids);
        let last = before.next.line(lines.last(), uuids[i], call_uuids[i]);
        responses::numbered_texts_add_up(s.translator.seq, before.events, last.events);
    } else {
        assert(responses::texts_from(s.translator.seq, Seq::empty()) =~= Seq::<Seq<char>>::empty());
    }
}

/// A stream is answered with a failure only where nothing was ever sent of it.
pub proof fn failures_replace_silent_streams(
    model: Seq<char>,
    response_id: Seq<char>,
    created: i64,
    lines: Seq<Seq<char>>,
    uuids: Seq<Seq<char>>,
    call_uuids: Seq<Seq<char>>,
    rest: Seq<u8>,
    uuid: Seq<char>,
    call_uuid: Seq<char>,
)
    ensures
        ({
            let s = ResponsesStreamV::start(model, response_id, created).lines(lines, uuids, call_uuids);
            let end = (ResponsesStreamV { buffer: rest, ..s.next }).ending(uuid, call_uuid);
            end.failure is Some ==> (s.sent + end.sent).len() == 0
        }),
{
    let first = ResponsesStreamV::start(model, response_id, created);
    let s = first.lines(lines, uuids, call_uuids);
    what_is_sent_is_numbered(first, lines, uuids, call_uuids);
    responses::nothing_precedes_the_beginning(first.translator, lines, uuids, call_uuids);
    let at_end = ResponsesStreamV { buffer: rest, ..s.next };
    let r = at_end.rest(uuid, call_uuid);
    if rest.len() > 0 {
        let one = seq![text::utf8_lossy(rest)];
        let t = at_end.translator;
        responses::nothing_precedes_the_beginning(t, one, seq![uuid], seq![call_uuid]);
        assert(one.drop_last() =~= Seq::<Seq<char>>::empty());
        reveal_with_fuel(ResponsesV::lines, 2);
        assert(t.lines(one, seq![uuid], seq![call_uuid]).events =~= t.line(one[0], uuid, call_uuid).events);
        assert(r.sent.len() == t.line(one[0], uuid, call_uuid).events.len());
    }
}

/// A stream that was cut off before anything was sent is answered with 502 and a time to wait;
/// one without output with 429 and a time to wait.
pub proof fn silent_failures_can_be_retried(t: ResponsesV)
    requires
        t.upstream_error is None,
    ensures
        t.incomplete() matches Some(detail) ==> silent_failure(t) == Some(
            FinalErrorV {
                status: 502,
                body: error_json("upstream_error"@, errors::incomplete_error(detail).error_message(), Some(10)),
            },
        ),
        t.incomplete() is None && t.output_tokens == 0 ==> silent_failure(t) == Some(
            FinalErrorV {
                status: 429,
                body: error_json(
                    "rate_limit_error"@,
                    "Empty response from upstream (zero output tokens)"@,
                    Some(10),
                ),
            },
        ),
        t.incomplete() is None && t.output_tokens != 0 ==> silent_failure(t) is None,
{
    if let Some(detail) = t.incomplete() {
        errors::cut_off_can_be_retried(detail);
    }
}

/// What the upstream said in full is a response exactly where it told its end, no connection
/// failed and there is output; one that was cut off is answered with 502 and a time to wait, one
/// without output with 429 and a time to wait.
pub proof fn only_whole_answers_are_responses(g: GatherV)
    requires
        g.upstream_error is None,
    ensures
        g.incomplete() matches Some(detail) ==> gathered_failure(g) == Some(
            error_reply(502, "upstream_error"@, errors::incomplete_error(detail).error_message(), Some(10)),
        ),
        g.incomplete() is None && g.without_output() ==> gathered_failure(g) == Some(
            error_reply(
                429,
                "rate_limit_error"@,
                "Empty response from upstream (zero output tokens)"@,
                Some(10),
            ),
        ),
        gathered_failure(g) is None <==> g.saw_finish && g.finish_reason != "upstream_error"@ && !g.without_output(),
{
    if let Some(detail) = g.incomplete() {
        errors::cut_off_can_be_retried(detail);
    }
}

} // verus!
