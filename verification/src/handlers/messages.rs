//! `POST /v1/messages`.

use vstd::prelude::*;
use crate::cc;
use crate::cc::build_cc_request_on;
use crate::config;
use crate::config::{Config, ConfigV};
use crate::errors;
use crate::errors::{incomplete_upstream_error, map_cc_error, MappedError};
use crate::fingerprint::{DeviceProfile, DeviceProfileV};
use crate::handlers::chat;
use crate::handlers::chat::{stream_wanted, too_large_message};
use crate::handlers::gather::{Gather, GatherV};
use crate::http_util;
use crate::http_util::{
    json_response, rest_text, take_lines, timeout_message, BodyError, Ending, EndingV, FinalError, FinalErrorV, Reply,
    ReplyV,
};
use crate::json;
use crate::json::{Json, JsonV};
use crate::text;
use crate::text::{append_texts, cat, cat3, join, no_texts, one_text, same};
use crate::translate::anthropic;
use crate::translate::anthropic::{
    build_anthropic_response_with, error_text, make_error, make_typed_error, AnthropicSseTranslator, AnthropicV,
    FrameV,
};
use crate::translate::anthropic_request;
use crate::translate::anthropic_request::convert_anthropic_to_openai;
use crate::util;
use crate::util::{date_str_utc, get_api_key, random_uuid, random_uuids, short_id};

verus! {

// ── errors ─────────────────────────────────────────────────────

/// An error reply in the Anthropic form.
pub open spec fn error_reply(status: u16, ty: Seq<char>, message: Seq<char>, retry_after: Option<u64>) -> ReplyV {
    http_util::json_reply(status, anthropic::error_json(anthropic::typed_error(ty, message), retry_after))
}

fn anthropic_error(status: u16, ty: &str, message: &str, retry_after: Option<u64>) -> (r: Reply)
    ensures
        r@ == error_reply(status, ty@, message@, retry_after),
{
    json_response(status, &make_error(make_typed_error(ty, message), retry_after))
}

/// The reply to an upstream response with an error status; it does not pass on a time to wait.
pub fn upstream_status_reply(status: u16, body: &str) -> (r: Reply)
    ensures
        ({
            let m = errors::response_error(status, Some(body@));
            r@ == error_reply(m.status, m.error_type(), m.error_message(), None)
        }),
{
    let m = map_cc_error(status, Some(body));
    anthropic_error(m.status, m.error_type().as_str(), m.error_message().as_str(), None)
}

/// The reply where the upstream cannot be reached, or the connection to it broke.
pub fn connection_reply(e: &str) -> (r: Reply)
    ensures
        r@ == error_reply(502, "proxy_error"@, chat::connection_text(e@), Some(10)),
{
    anthropic_error(502, "proxy_error", cat("Upstream error: ", e).as_str(), Some(10))
}

/// The reply where the upstream was silent.
pub fn idle_reply(consecutive: usize) -> (r: Reply)
    ensures
        r@ == error_reply(429, "rate_limit_error"@, http_util::timeout_text(consecutive), Some(5)),
{
    anthropic_error(429, "rate_limit_error", timeout_message(consecutive).as_str(), Some(5))
}

// ── before the upstream is asked ───────────────────────────────

/// A request that is ready to be sent upstream.
pub struct MessagesPlan {
    pub api_key: String,
    pub stream: bool,
    pub model: String,
    pub cc_body: Json,
}

/// The model of such a request.
pub struct MessagesPlanV {
    pub api_key: Seq<char>,
    pub stream: bool,
    pub model: Seq<char>,
    pub cc_body: JsonV,
}

impl MessagesPlan {
    pub open spec fn view(&self) -> MessagesPlanV {
        MessagesPlanV { api_key: self.api_key@, stream: self.stream, model: self.model@, cc_body: self.cc_body@ }
    }
}

/// What comes of a request, on a date. `default_model` is the model that the message is said to
/// come from where the request names none.
pub open spec fn plan_of(
    cfg: ConfigV,
    profile: DeviceProfileV,
    default_model: Seq<char>,
    body: Result<JsonV, BodyError>,
    api_key: Option<Seq<char>>,
    date: Seq<char>,
) -> Result<MessagesPlanV, ReplyV> {
    match body {
        Err(BodyError::TooLarge(limit)) => Err(
            error_reply(413, "invalid_request_error"@, chat::too_large_text(limit), None),
        ),
        Err(BodyError::InvalidJson) => Err(error_reply(400, "invalid_request_error"@, "Invalid JSON body"@, None)),
        Ok(req) => match api_key {
            None => Err(error_reply(401, "authentication_error"@, chat::missing_key_text(), None)),
            Some(key) => Ok(
                MessagesPlanV {
                    api_key: key,
                    stream: config::bool_or(req, "stream"@, false),
                    model: match req.get_nonempty("model"@) {
                        Some(m) => m,
                        None => default_model,
                    },
                    cc_body: cc::cc_request(cfg, profile, anthropic_request::chat_request(req), date),
                },
            ),
        },
    }
}

/// The model of a plan, or of the reply in its place.
pub open spec fn plan_model(r: Result<MessagesPlan, Reply>) -> Result<MessagesPlanV, ReplyV> {
    match r {
        Ok(p) => Ok(p@),
        Err(e) => Err(e@),
    }
}

/// Turns a request into one for the upstream, on a date. The two headers are those that can hold
/// the API key; `default_model` is the model that the message is said to come from where the
/// request names none.
pub fn plan_with(
    cfg: &Config,
    profile: &DeviceProfile,
    default_model: &str,
    body: Result<Json, BodyError>,
    authorization: Option<&str>,
    x_api_key: Option<&str>,
    date: &str,
) -> (r: Result<MessagesPlan, Reply>)
    ensures
        plan_model(r) == plan_of(
            cfg@,
            profile@,
            default_model@,
            chat::body_model(body),
            util::api_key_of(text::str_opt(authorization), text::str_opt(x_api_key)),
            date@,
        ),
{
    let req = match body {
        Ok(j) => j,
        Err(BodyError::TooLarge(limit)) => {
            let message = too_large_message(limit);
            return Err(anthropic_error(413, "invalid_request_error", message.as_str(), None));
        },
        Err(BodyError::InvalidJson) => {
            return Err(anthropic_error(400, "invalid_request_error", "Invalid JSON body", None));
        },
    };
    let api_key = match get_api_key(authorization, x_api_key) {
        Some(k) => k,
        None => {
            return Err(
                anthropic_error(
                    401,
                    "authentication_error",
                    "Missing API key. Send in Authorization: Bearer <key> or x-api-key header",
                    None,
                ),
            );
        },
    };
    let model = match req.get_nonempty("model") {
        Some(m) => m.to_owned(),
        None => default_model.to_owned(),
    };
    let chat_req = convert_anthropic_to_openai(&req);
    Ok(
        MessagesPlan {
            api_key,
            stream: stream_wanted(&req),
            model,
            cc_body: build_cc_request_on(cfg, profile, &chat_req, date),
        },
    )
}

/// Turns a request into one for the upstream.
pub fn plan(
    cfg: &Config,
    profile: &DeviceProfile,
    default_model: &str,
    body: Result<Json, BodyError>,
    authorization: Option<&str>,
    x_api_key: Option<&str>,
) -> (r: Result<MessagesPlan, Reply>)
    ensures
        exists|date: Seq<char>|
            util::date_text(date) && plan_model(r) == #[trigger] plan_of(
                cfg@,
                profile@,
                default_model@,
                chat::body_model(body),
                util::api_key_of(text::str_opt(authorization), text::str_opt(x_api_key)),
                date,
            ),
{
    let date = date_str_utc();
    plan_with(cfg, profile, default_model, body, authorization, x_api_key, date.as_str())
}

// ── answers that are no stream ─────────────────────────────────

/// Why what the upstream said is no message: an error, an end that did not come, or no output.
pub open spec fn gathered_failure(g: GatherV) -> Option<ReplyV> {
    match g.upstream_error {
        Some(e) => Some(error_reply(e.status, e.error_type(), e.error_message(), e.retry_after())),
        None => match g.incomplete() {
            Some(detail) => {
                let e = errors::incomplete_error(detail);
                Some(error_reply(e.status, e.error_type(), e.error_message(), e.retry_after()))
            },
            None => if g.without_output() {
                Some(
                    error_reply(
                        429,
                        "rate_limit_error"@,
                        "Empty response from upstream (zero output tokens)"@,
                        Some(10),
                    ),
                )
            } else {
                None
            },
        },
    }
}

/// The reply for what the upstream said; the UUID makes the message's identifier.
pub open spec fn gathered_reply(g: GatherV, model: Seq<char>, uuid: Seq<char>) -> ReplyV {
    match gathered_failure(g) {
        Some(r) => r,
        None => http_util::json_reply(
            200,
            anthropic::message_object(
                uuid,
                model,
                g.full_text,
                g.tool_calls,
                g.finish_reason,
                g.usage,
                g.thinking,
            ),
        ),
    }
}

fn mapped_reply(e: &MappedError) -> (r: Reply)
    ensures
        r@ == error_reply(e@.status, e@.error_type(), e@.error_message(), e@.retry_after()),
{
    anthropic_error(e.status, e.error_type().as_str(), e.error_message().as_str(), e.retry_after())
}

/// The reply for what the upstream said, and whether it is a message.
pub fn reply_with(g: &Gather, model: &str, uuid: &str) -> (r: (Reply, bool))
    ensures
        r.0@ == gathered_reply(g@, model@, uuid@),
        r.1 == (gathered_failure(g@) is None),
{
    if let Some(e) = &g.upstream_error {
        return (mapped_reply(e), false);
    }
    if let Some(detail) = g.incomplete_detail() {
        return (mapped_reply(&incomplete_upstream_error(detail)), false);
    }
    if g.nothing() {
        return (
            anthropic_error(
                429,
                "rate_limit_error",
                "Empty response from upstream (zero output tokens)",
                Some(10),
            ),
            false,
        );
    }
    let message = build_anthropic_response_with(
        model,
        g.full_text.as_str(),
        Some(&g.tool_calls),
        g.finish_reason.as_str(),
        g.usage.as_ref(),
        g.thinking.as_str(),
        uuid,
    );
    (json_response(200, &message), true)
}

/// The reply for what the upstream said, with a random identifier, and whether it is a message.
pub fn reply(g: &Gather, model: &str) -> (r: (Reply, bool))
    ensures
        exists|uuid: Seq<char>| util::uuid_text(uuid) && r.0@ == #[trigger] gathered_reply(g@, model@, uuid),
        r.1 == (gathered_failure(g@) is None),
{
    let uuid = random_uuid();
    reply_with(g, model, uuid.as_str())
}

// ── streams ────────────────────────────────────────────────────

/// The identifier of a message, made of a UUID.
pub open spec fn message_id_of(uuid: Seq<char>) -> Seq<char> {
    "msg_"@ + util::short_id_text(uuid, 12)
}

/// A random identifier for a message.
pub fn new_message_id() -> (r: String)
    ensures
        exists|uuid: Seq<char>| util::uuid_text(uuid) && r@ == #[trigger] message_id_of(uuid),
{
    let uuid = random_uuid();
    let r = cat("msg_", short_id(uuid.as_str(), 12).as_str());
    assert(r@ == message_id_of(uuid@));
    r
}

/// A stream that is being translated. Nothing is sent before there is something to say; an error
/// that comes first is held back, so that it can still be the answer.
pub struct AnthropicStream {
    pub translator: AnthropicSseTranslator,
    pub buffer: Vec<u8>,
    /// Whether something was sent.
    pub started: bool,
    pub held: Vec<String>,
}

/// The model of such a stream.
pub struct AnthropicStreamV {
    pub translator: AnthropicV,
    pub buffer: Seq<u8>,
    pub started: bool,
    pub held: Seq<Seq<char>>,
}

/// What something sends, and the stream after it.
pub struct AnthropicStreamStepV {
    pub next: AnthropicStreamV,
    pub sent: Seq<Seq<char>>,
}

/// Why a stream that sent nothing is answered with an error: an error event, an end that did not
/// come, or no output.
pub open spec fn silent_failure(t: AnthropicV) -> Option<FinalErrorV> {
    match t.upstream_error {
        Some(e) => Some(FinalErrorV { status: e.status, body: e.body }),
        None => match t.incomplete() {
            Some(detail) => {
                let e = errors::incomplete_error(detail);
                Some(
                    FinalErrorV {
                        status: 502,
                        body: anthropic::error_json(
                            anthropic::typed_error(e.error_type(), e.error_message()),
                            e.retry_after(),
                        ),
                    },
                )
            },
            None => if t.output_tokens == 0 {
                Some(
                    FinalErrorV {
                        status: 429,
                        body: anthropic::error_json(anthropic::zero_output_json(), Some(10)),
                    },
                )
            } else {
                None
            },
        },
    }
}

impl AnthropicStreamV {
    pub open spec fn start(model: Seq<char>, message_id: Seq<char>) -> AnthropicStreamV {
        AnthropicStreamV {
            translator: AnthropicV::start(model, message_id),
            buffer: Seq::empty(),
            started: false,
            held: Seq::empty(),
        }
    }

    pub open spec fn quiet(self) -> AnthropicStreamStepV {
        AnthropicStreamStepV { next: self, sent: Seq::empty() }
    }

    /// Pieces sent: the first that is sent of all has the beginning of the message, and what was
    /// held back, in front of it.
    pub open spec fn deliver(self, pieces: Seq<Seq<char>>, is_error: bool) -> AnthropicStreamStepV {
        if pieces.len() == 0 {
            self.quiet()
        } else if self.started {
            AnthropicStreamStepV { next: self, sent: pieces }
        } else if is_error {
            AnthropicStreamV { held: self.held + pieces, ..self }.quiet()
        } else {
            AnthropicStreamStepV {
                next: AnthropicStreamV { started: true, held: Seq::empty(), ..self },
                sent: pieces.update(
                    0,
                    self.translator.message_start_text() + text::joined(self.held, ""@) + pieces[0],
                ),
            }
        }
    }

    /// What a line sends.
    pub open spec fn line(self, line: Seq<char>, uuid: Seq<char>) -> AnthropicStreamStepV {
        let s = self.translator.line(line, uuid);
        AnthropicStreamV { translator: s.next, ..self }.deliver(
            anthropic::piece_texts(s.pieces),
            s.next.last_cc_event == "error"@,
        )
    }

    /// What lines send, with a UUID for each.
    pub open spec fn lines(self, lines: Seq<Seq<char>>, uuids: Seq<Seq<char>>) -> AnthropicStreamStepV
        decreases lines.len(),
    {
        if lines.len() == 0 {
            self.quiet()
        } else {
            let before = self.lines(lines.drop_last(), uuids);
            let last = before.next.line(lines.last(), uuids[lines.len() - 1]);
            AnthropicStreamStepV { next: last.next, sent: before.sent + last.sent }
        }
    }

    pub open spec fn new_lines(self, chunk: Seq<u8>) -> Seq<Seq<char>> {
        http_util::line_texts(http_util::lines(self.buffer + chunk))
    }

    pub open spec fn fed(self, chunk: Seq<u8>) -> AnthropicStreamV {
        AnthropicStreamV { buffer: http_util::last_line(self.buffer + chunk), ..self }
    }

    /// What is left when the response ends: a line too.
    pub open spec fn rest(self, uuid: Seq<char>) -> AnthropicStreamStepV {
        if self.buffer.len() > 0 {
            self.line(text::utf8_lossy(self.buffer), uuid)
        } else {
            self.quiet()
        }
    }

    /// The end behind the last line.
    pub open spec fn conclusion(self) -> EndingV {
        let last = anthropic::piece_texts(self.translator.finished().pieces);
        if self.started {
            EndingV { sent: last, failure: None, resets_timeouts: true }
        } else {
            match silent_failure(self.translator) {
                Some(f) => EndingV { sent: Seq::empty(), failure: Some(f), resets_timeouts: false },
                None => EndingV {
                    sent: self.deliver(last, false).sent,
                    failure: None,
                    resets_timeouts: true,
                },
            }
        }
    }

    /// How the stream ends when the response does.
    pub open spec fn ending(self, uuid: Seq<char>) -> EndingV {
        let s = self.rest(uuid);
        let c = s.next.conclusion();
        EndingV { sent: s.sent + c.sent, ..c }
    }

    /// A failure told: as the answer where nothing was sent, else as an event.
    pub open spec fn failed(self, status: u16, answer: JsonV, event: JsonV, retry_after: Option<u64>) -> EndingV {
        if self.started {
            EndingV {
                sent: seq![(FrameV::Error { error: event, retry_after }).text()],
                failure: None,
                resets_timeouts: false,
            }
        } else {
            EndingV {
                sent: Seq::empty(),
                failure: Some(FinalErrorV { status, body: answer }),
                resets_timeouts: false,
            }
        }
    }

    /// How the stream ends when the upstream is silent.
    pub open spec fn idle_ending(self, consecutive: usize) -> EndingV {
        let e = anthropic::typed_error("rate_limit_error"@, http_util::timeout_text(consecutive));
        self.failed(429, anthropic::error_json(e, Some(5)), e, Some(5))
    }

    /// How the stream ends when the connection breaks.
    pub open spec fn broken_ending(self, e: Seq<char>) -> EndingV {
        self.failed(
            502,
            anthropic::error_json(anthropic::typed_error("proxy_error"@, chat::connection_text(e)), Some(10)),
            anthropic::typed_error("internal_error"@, e),
            None,
        )
    }
}

/// After how many silent milliseconds a client is sent a sign of life.
pub const PING_AFTER_MS: u64 = 15_000;

impl AnthropicStream {
    pub open spec fn view(&self) -> AnthropicStreamV {
        AnthropicStreamV {
            translator: self.translator@,
            buffer: self.buffer@,
            started: self.started,
            held: text::texts(self.held@),
        }
    }

    pub fn new(model: &str, message_id: &str) -> (r: Self)
        ensures
            r@ == AnthropicStreamV::start(model@, message_id@),
    {
        let r = AnthropicStream {
            translator: AnthropicSseTranslator::new(model, message_id),
            buffer: Vec::new(),
            started: false,
            held: no_texts(),
        };
        assert(r.buffer@ =~= Seq::<u8>::empty());
        r
    }

    fn deliver(&mut self, pieces: Vec<String>, is_error: bool) -> (r: Vec<String>)
        ensures
            final(self)@ == old(self)@.deliver(text::texts(pieces@), is_error).next,
            text::texts(r@) == old(self)@.deliver(text::texts(pieces@), is_error).sent,
    {
        assert(text::texts(pieces@).len() == pieces@.len());
        if pieces.len() == 0 || self.started {
            assert(pieces@.len() == 0 ==> text::texts(pieces@) =~= Seq::<Seq<char>>::empty());
            return pieces;
        }
        if is_error {
            append_texts(&mut self.held, pieces);
            return no_texts();
        }
        let ghost before = text::texts(pieces@);
        let first = cat3(
            self.translator.message_start().as_str(),
            join(&self.held, "").as_str(),
            pieces[0].as_str(),
        );
        let mut pieces = pieces;
        pieces.set(0, first);
        assert(text::texts(pieces@) =~= before.update(0, first@));
        self.started = true;
        self.held = no_texts();
        pieces
    }

    fn on_line(&mut self, line: &str, uuid: &str) -> (r: Vec<String>)
        ensures
            final(self)@ == old(self)@.line(line@, uuid@).next,
            text::texts(r@) == old(self)@.line(line@, uuid@).sent,
    {
        let pieces = self.translator.parse_line_with(line, uuid);
        let is_error = same(self.translator.last_cc_event.as_str(), "error");
        self.deliver(pieces, is_error)
    }

    /// Takes lines, with a UUID for each, and gives what is sent.
    pub fn on_lines(&mut self, lines: &Vec<String>, uuids: &Vec<String>) -> (r: Vec<String>)
        requires
            uuids@.len() == lines@.len(),
        ensures
            final(self)@ == old(self)@.lines(text::texts(lines@), text::texts(uuids@)).next,
            text::texts(r@) == old(self)@.lines(text::texts(lines@), text::texts(uuids@)).sent,
    {
        let ghost start = self@;
        let ghost all = text::texts(lines@);
        let ghost ids = text::texts(uuids@);
        let mut out = no_texts();
        let mut i: usize = 0;
        assert(all.take(0) =~= Seq::<Seq<char>>::empty());
        while i < lines.len()
            invariant
                i <= lines@.len(),
                uuids@.len() == lines@.len(),
                all == text::texts(lines@),
                ids == text::texts(uuids@),
                self@ == start.lines(all.take(i as int), ids).next,
                text::texts(out@) == start.lines(all.take(i as int), ids).sent,
            decreases lines.len() - i,
        {
            assert(all.take(i + 1).drop_last() =~= all.take(i as int));
            assert(all.take(i + 1).last() == all[i as int]);
            let more = self.on_line(lines[i].as_str(), uuids[i].as_str());
            append_texts(&mut out, more);
            i = i + 1;
        }
        assert(all.take(i as int) =~= all);
        out
    }

    /// Takes a piece of the response and gives what is sent; identifiers are random.
    pub fn on_chunk(&mut self, chunk: &[u8]) -> (r: Vec<String>)
        ensures
            exists|uuids: Seq<Seq<char>>|
                util::uuid_list(uuids, old(self)@.new_lines(chunk@).len()) && final(self)@ == (
                #[trigger] old(self)@.fed(chunk@).lines(old(self)@.new_lines(chunk@), uuids)).next && text::texts(r@)
                    == old(self)@.fed(chunk@).lines(old(self)@.new_lines(chunk@), uuids).sent,
    {
        let ghost before = self@;
        let mut buf: Vec<u8> = Vec::new();
        std::mem::swap(&mut self.buffer, &mut buf);
        buf.extend_from_slice(chunk);
        assert(buf@ =~= before.buffer + chunk@);
        let mut lines = no_texts();
        take_lines(&mut buf, &mut lines);
        self.buffer = buf;
        let ghost ls = before.new_lines(chunk@);
        assert(text::texts(lines@) =~= ls);
        assert(lines@.len() == text::texts(lines@).len());
        let uuids = random_uuids(lines.len());
        self.on_lines(&lines, &uuids)
    }

    fn conclude(&mut self) -> (r: Ending)
        ensures
            r@ == old(self)@.conclusion(),
    {
        let ghost before = self@;
        if !self.started {
            if let Some(e) = &self.translator.upstream_error {
                return Ending {
                    sent: no_texts(),
                    failure: Some(FinalError { status: e.status, body: e.body.clone() }),
                    resets_timeouts: false,
                };
            }
            if let Some(detail) = self.translator.incomplete_detail() {
                let e = incomplete_upstream_error(detail);
                let body = make_error(
                    make_typed_error(e.error_type().as_str(), e.error_message().as_str()),
                    e.retry_after(),
                );
                return Ending {
                    sent: no_texts(),
                    failure: Some(FinalError { status: 502, body }),
                    resets_timeouts: false,
                };
            }
            if self.translator.output_tokens == 0 {
                let body = make_error(
                    make_typed_error("rate_limit_error", "Empty response from upstream (zero output tokens)"),
                    Some(10),
                );
                return Ending {
                    sent: no_texts(),
                    failure: Some(FinalError { status: 429, body }),
                    resets_timeouts: false,
                };
            }
        }
        let pieces = self.translator.finalize();
        let ghost last = anthropic::piece_texts(before.translator.finished().pieces);
        assert(last.len() == 0 ==> last =~= Seq::<Seq<char>>::empty());
        assert(self.translator@.message_start_text() == before.translator.message_start_text());
        let sent = self.deliver(pieces, false);
        Ending { sent, failure: None, resets_timeouts: true }
    }

    /// Ends the stream when the response does; `uuid` makes the identifier of a last tool call.
    pub fn on_end_with(&mut self, uuid: &str) -> (r: Ending)
        ensures
            r@ == old(self)@.ending(uuid@),
    {
        let mut out = no_texts();
        if self.buffer.len() > 0 {
            let rest = rest_text(&self.buffer);
            out = self.on_line(rest.as_str(), uuid);
        }
        let e = self.conclude();
        append_texts(&mut out, e.sent);
        Ending { sent: out, failure: e.failure, resets_timeouts: e.resets_timeouts }
    }

    /// Ends the stream when the response does.
    pub fn on_end(&mut self) -> (r: Ending)
        ensures
            exists|uuid: Seq<char>| util::uuid_text(uuid) && r@ == #[trigger] old(self)@.ending(uuid),
    {
        let uuid = random_uuid();
        self.on_end_with(uuid.as_str())
    }

    fn fail(&self, status: u16, answer: Json, event: Json, retry_after: Option<u64>) -> (r: Ending)
        ensures
            r@ == self@.failed(status, answer@, event@, retry_after),
    {
        if self.started {
            Ending { sent: one_text(error_text(event, retry_after)), failure: None, resets_timeouts: false }
        } else {
            Ending {
                sent: no_texts(),
                failure: Some(FinalError { status, body: answer }),
                resets_timeouts: false,
            }
        }
    }

    /// Ends the stream when the upstream is silent.
    pub fn on_idle(&self, consecutive: usize) -> (r: Ending)
        ensures
            r@ == self@.idle_ending(consecutive),
    {
        let e = make_typed_error("rate_limit_error", timeout_message(consecutive).as_str());
        self.fail(429, make_error(e.clone(), Some(5)), e, Some(5))
    }

    /// Ends the stream when the connection breaks.
    pub fn on_broken(&self, e: &str) -> (r: Ending)
        ensures
            r@ == self@.broken_ending(e@),
    {
        let answer = make_error(make_typed_error("proxy_error", cat("Upstream error: ", e).as_str()), Some(10));
        self.fail(502, answer, make_typed_error("internal_error", e), None)
    }

    /// A sign of life for a client that was sent something and then nothing for a while.
    pub fn ping(&self, silent_ms: u64) -> (r: Option<&'static str>)
        ensures
            text::str_opt(r) == (if self@.started && silent_ms >= PING_AFTER_MS {
                Some("event: ping\ndata: {\"type\":\"ping\"}\n\n"@)
            } else {
                None
            }),
    {
        if self.started && silent_ms >= PING_AFTER_MS {
            Some("event: ping\ndata: {\"type\":\"ping\"}\n\n")
        } else {
            None
        }
    }
}

// ── laws ───────────────────────────────────────────────────────

impl AnthropicStreamV {
    /// What a piece of the response sends, with a UUID for each line that it completes.
    pub open spec fn chunk(self, chunk: Seq<u8>, uuids: Seq<Seq<char>>) -> AnthropicStreamStepV {
        self.fed(chunk).lines(self.new_lines(chunk), uuids)
    }

    spec fn with_buffer(self, buffer: Seq<u8>) -> AnthropicStreamV {
        AnthropicStreamV { buffer, ..self }
    }

    /// What holds of every stream between two lines.
    spec fn settled(self, first: AnthropicStreamV, sent: Seq<Seq<char>>) -> bool {
        let m = first.translator.message_start_text();
        &&& self.translator.message_start_text() == m
        &&& self.translator.has_error == (self.translator.upstream_error is Some)
        &&& !self.started ==> sent.len() == 0
        &&& self.started ==> sent.len() > 0 && text::has_prefix(sent[0], m)
    }
}

proof fn lemma_lines_buffer(s: AnthropicStreamV, buffer: Seq<u8>, lines: Seq<Seq<char>>, uuids: Seq<Seq<char>>)
    ensures
        s.with_buffer(buffer).lines(lines, uuids).next == s.lines(lines, uuids).next.with_buffer(buffer),
        s.with_buffer(buffer).lines(lines, uuids).sent == s.lines(lines, uuids).sent,
        s.lines(lines, uuids).next.buffer == s.buffer,
    decreases lines.len(),
{
    if lines.len() > 0 {
        lemma_lines_buffer(s, buffer, lines.drop_last(), uuids);
    }
}

proof fn lemma_lines_uuids(s: AnthropicStreamV, lines: Seq<Seq<char>>, u: Seq<Seq<char>>, w: Seq<Seq<char>>)
    requires
        u.len() >= lines.len(),
        w.len() >= lines.len(),
        u.take(lines.len() as int) == w.take(lines.len() as int),
    ensures
        s.lines(lines, u) == s.lines(lines, w),
    decreases lines.len(),
{
    if lines.len() > 0 {
        let n = lines.len() - 1;
        assert(u.take(n) =~= u.take(n + 1).take(n));
        assert(w.take(n) =~= w.take(n + 1).take(n));
        assert(u[n] == u.take(n + 1)[n]);
        assert(w[n] == w.take(n + 1)[n]);
        lemma_lines_uuids(s, lines.drop_last(), u, w);
    }
}

proof fn lemma_lines_sum(
    s: AnthropicStreamV,
    a: Seq<Seq<char>>,
    b: Seq<Seq<char>>,
    ua: Seq<Seq<char>>,
    ub: Seq<Seq<char>>,
)
    requires
        ua.len() == a.len(),
        ub.len() >= b.len(),
    ensures
        s.lines(a + b, ua + ub).next == s.lines(a, ua).next.lines(b, ub).next,
        s.lines(a + b, ua + ub).sent == s.lines(a, ua).sent + s.lines(a, ua).next.lines(b, ub).sent,
    decreases b.len(),
{
    if b.len() == 0 {
        assert(a + b =~= a);
        assert((ua + ub).take(a.len() as int) =~= ua.take(a.len() as int));
        lemma_lines_uuids(s, a, ua + ub, ua);
        assert(s.lines(a, ua).sent + Seq::<Seq<char>>::empty() =~= s.lines(a, ua).sent);
    } else {
        lemma_lines_sum(s, a, b.drop_last(), ua, ub);
        assert((a + b).drop_last() =~= a + b.drop_last());
        assert((a + b).last() == b.last());
        assert((ua + ub)[(a + b).len() - 1] == ub[b.len() - 1]);
        assert(s.lines(a + b, ua + ub).sent =~= s.lines(a, ua).sent + s.lines(a, ua).next.lines(b, ub).sent);
    }
}

/// It makes no difference to what is sent how the upstream response was cut into pieces.
pub proof fn cuts_make_no_difference(
    s: AnthropicStreamV,
    a: Seq<u8>,
    b: Seq<u8>,
    ua: Seq<Seq<char>>,
    ub: Seq<Seq<char>>,
)
    requires
        ua.len() == s.new_lines(a).len(),
        ub.len() == s.chunk(a, ua).next.new_lines(b).len(),
    ensures
        s.chunk(a + b, ua + ub).next == s.chunk(a, ua).next.chunk(b, ub).next,
        s.chunk(a + b, ua + ub).sent == s.chunk(a, ua).sent + s.chunk(a, ua).next.chunk(b, ub).sent,
{
    let x = s.chunk(a, ua);
    let la = s.new_lines(a);
    lemma_lines_buffer(s.fed(a), s.buffer, la, ua);
    let lb = x.next.new_lines(b);
    http_util::lines_ignore_cuts(s.buffer + a, b);
    assert(s.buffer + a + b =~= s.buffer + (a + b));
    assert(s.new_lines(a + b) =~= la + lb);
    let last = http_util::last_line(s.buffer + (a + b));
    lemma_lines_sum(s.fed(a + b), la, lb, ua, ub);
    lemma_lines_buffer(s.fed(a), last, la, ua);
    assert(s.fed(a).with_buffer(last) == s.fed(a + b));
    assert(s.fed(a + b).lines(la, ua).next == x.next.with_buffer(last));
    assert(x.next.fed(b) == x.next.with_buffer(last));
}

proof fn lemma_prefix_front(m: Seq<char>, held: Seq<char>, x: Seq<char>)
    ensures
        text::has_prefix(m + held + x, m),
{
    assert((m + held + x).take(m.len() as int) =~= m);
}

proof fn lemma_settled_line(
    first: AnthropicStreamV,
    s: AnthropicStreamV,
    sent: Seq<Seq<char>>,
    line: Seq<char>,
    uuid: Seq<char>,
)
    requires
        s.settled(first, sent),
    ensures
        s.line(line, uuid).next.settled(first, sent + s.line(line, uuid).sent),
        s.started ==> s.line(line, uuid).next.started,
{
    let t = s.translator.line(line, uuid);
    let m = first.translator.message_start_text();
    let after = s.line(line, uuid);
    let pieces = anthropic::piece_texts(t.pieces);
    if let Some(e) = crate::translate::events::event_in(line, false) {
        assert(t.next.message_start_text() == m);
    }
    if sent.len() > 0 {
        assert((sent + after.sent)[0] == sent[0]);
    }
    if pieces.len() > 0 && !s.started && t.next.last_cc_event != "error"@ {
        lemma_prefix_front(m, text::joined(s.held, ""@), pieces[0]);
        assert((sent + after.sent)[0] == after.sent[0]);
    }
}

proof fn lemma_settled(first: AnthropicStreamV, lines: Seq<Seq<char>>, uuids: Seq<Seq<char>>)
    requires
        first.settled(first, Seq::empty()),
    ensures
        first.lines(lines, uuids).next.settled(first, first.lines(lines, uuids).sent),
    decreases lines.len(),
{
    if lines.len() > 0 {
        lemma_settled(first, lines.drop_last(), uuids);
        let before = first.lines(lines.drop_last(), uuids);
        lemma_settled_line(first, before.next, before.sent, lines.last(), uuids[lines.len() - 1]);
    }
}

/// The beginning of the message is the first thing that a client reads of a stream.
pub proof fn message_start_comes_first(
    model: Seq<char>,
    message_id: Seq<char>,
    lines: Seq<Seq<char>>,
    uuids: Seq<Seq<char>>,
)
    ensures
        ({
            let s = AnthropicStreamV::start(model, message_id).lines(lines, uuids);
            s.sent.len() > 0 ==> text::has_prefix(
                s.sent[0],
                AnthropicV::start(model, message_id).message_start_text(),
            )
        }),
{
    lemma_settled(AnthropicStreamV::start(model, message_id), lines, uuids);
}

/// At its end a stream is answered with a failure exactly where nothing was ever sent of it.
pub proof fn failure_or_stream(
    model: Seq<char>,
    message_id: Seq<char>,
    lines: Seq<Seq<char>>,
    uuids: Seq<Seq<char>>,
    rest: Seq<u8>,
    uuid: Seq<char>,
)
    ensures
        ({
            let s = AnthropicStreamV::start(model, message_id).lines(lines, uuids);
            let end = (AnthropicStreamV { buffer: rest, ..s.next }).ending(uuid);
            end.failure is Some <==> (s.sent + end.sent).len() == 0
        }),
{
    let first = AnthropicStreamV::start(model, message_id);
    lemma_settled(first, lines, uuids);
    let s = first.lines(lines, uuids);
    let at_end = AnthropicStreamV { buffer: rest, ..s.next };
    assert(at_end.settled(first, s.sent));
    if rest.len() > 0 {
        lemma_settled_line(first, at_end, s.sent, text::utf8_lossy(rest), uuid);
    }
    let r = at_end.rest(uuid);
    assert(r.next.settled(first, s.sent + r.sent)) by {
        if rest.len() == 0 {
            assert(s.sent + r.sent =~= s.sent);
        }
    }
    let last = anthropic::piece_texts(r.next.translator.finished().pieces);
    let c = r.next.conclusion();
    if !r.next.started && silent_failure(r.next.translator) is None {
        assert(r.next.translator.last_frames().len() == 2);
        assert(r.next.translator.finished().pieces.len() >= 2);
        assert(last.len() >= 2);
    }
}

/// A stream that was cut off before anything was sent is answered with 502 and a time to wait;
/// one without output with 429 and a time to wait.
pub proof fn silent_failures_can_be_retried(t: AnthropicV)
    requires
        t.upstream_error is None,
    ensures
        t.incomplete() is Some ==> (silent_failure(t) matches Some(f) && f.status == 502 && f.body.get(
            "retry_after"@,
        ) == Some(json::int_json(10)) && json::str_in(f.body.get2("error"@, "type"@)) == Some("upstream_error"@)),
        t.incomplete() is None && t.output_tokens == 0 ==> (silent_failure(t) matches Some(f) && f.status == 429
            && f.body.get("retry_after"@) == Some(json::int_json(10)) && json::str_in(f.body.get2("error"@, "type"@))
            == Some("rate_limit_error"@)),
        t.incomplete() is None && t.output_tokens != 0 ==> silent_failure(t) is None,
{
    match t.incomplete() {
        Some(detail) => {
            let e = errors::incomplete_error(detail);
            errors::cut_off_can_be_retried(detail);
            anthropic::error_members(anthropic::typed_error(e.error_type(), e.error_message()), Some(10));
            anthropic::typed_error_members(e.error_type(), e.error_message());
        },
        None => {
            anthropic::error_members(anthropic::zero_output_json(), Some(10));
            anthropic::typed_error_members(
                "rate_limit_error"@,
                "Empty response from upstream (zero output tokens)"@,
            );
        },
    }
}

/// What the upstream said in full is a message exactly where it told its end, no connection
/// failed and there is output; one that was cut off is answered with 502 and a time to wait, one
/// without output with 429 and a time to wait.
pub proof fn only_whole_answers_are_messages(g: GatherV)
    requires
        g.upstream_error is None,
    ensures
        g.incomplete() matches Some(detail) ==> gathered_failure(g) == Some(
            error_reply(502, "upstream_error"@, errors::incomplete_error(detail).error_message(), Some(10)),
        ),
        g.incomplete() is None && g.without_output() ==> gathered_failure(g) == Some(
            error_reply(
                429,
                "rate_limit_error"@,
                "Empty response from upstream (zero output tokens)"@,
                Some(10),
            ),
        ),
        gathered_failure(g) is None <==> g.saw_finish && g.finish_reason != "upstream_error"@ && !g.without_output(),
{
    if let Some(detail) = g.incomplete() {
        errors::cut_off_can_be_retried(detail);
    }
}

} // verus!
