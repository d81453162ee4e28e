//! Request bodies, upstream lines, replies, and what is noted of a client that went away.

use vstd::prelude::*;
use crate::cc;
use crate::cc::{no_headers, push_header};
use crate::errors::MappedError;
use crate::json;
use crate::json::{json_string, parse_json_bytes, Json, JsonMap, JsonV};
use crate::text;
use crate::text::{cat, cat3, contains_text, decimal_u64, from_utf8_lossy, push_text, starts_with};
use crate::util::now_millis;

verus! {

// ── request bodies ─────────────────────────────────────────────

/// Why a request body was refused.
#[derive(Debug, PartialEq, Eq, Clone, Copy)]
pub enum BodyError {
    /// It is larger than this limit.
    TooLarge(usize),
    InvalidJson,
}

/// How much of a body that is too large is still read and dropped.
pub const DRAIN_LIMIT: usize = 33_554_432;

/// The model of a body that is being read.
pub struct BodyV {
    pub limit: nat,
    pub received: Seq<u8>,
    pub too_large: bool,
    pub drained: nat,
}

/// A request body that is being read. Once it is beyond its limit the rest is dropped, up to
/// `DRAIN_LIMIT` bytes, so that the client sees the refusal and not a broken connection.
pub struct BodyReader {
    limit: usize,
    buf: Vec<u8>,
    too_large: bool,
    drained: usize,
}

impl BodyV {
    /// The body before anything was read.
    pub open spec fn start(limit: nat) -> BodyV {
        BodyV { limit, received: Seq::empty(), too_large: false, drained: 0 }
    }

    /// The body after a piece of it.
    pub open spec fn add(self, data: Seq<u8>) -> BodyV {
        if self.too_large {
            BodyV { drained: self.drained + data.len(), ..self }
        } else if self.received.len() + data.len() > self.limit {
            BodyV { too_large: true, received: Seq::empty(), ..self }
        } else {
            BodyV { received: self.received + data, ..self }
        }
    }

    /// Whether more of the body is read.
    pub open spec fn reading(self) -> bool {
        self.drained <= DRAIN_LIMIT
    }

    pub open spec fn outcome(self) -> Result<JsonV, BodyError> {
        if self.too_large {
            Err(BodyError::TooLarge(self.limit as usize))
        } else {
            match json::json_parsed_bytes(self.received) {
                Some(j) => Ok(j),
                None => Err(BodyError::InvalidJson),
            }
        }
    }
}

/// The body after pieces of it.
pub open spec fn body_after(limit: nat, pieces: Seq<Seq<u8>>) -> BodyV
    decreases pieces.len(),
{
    if pieces.len() == 0 {
        BodyV::start(limit)
    } else {
        body_after(limit, pieces.drop_last()).add(pieces.last())
    }
}

impl BodyReader {
    pub closed spec fn view(&self) -> BodyV {
        BodyV {
            limit: self.limit as nat,
            received: self.buf@,
            too_large: self.too_large,
            drained: self.drained as nat,
        }
    }

    pub closed spec fn wf(&self) -> bool {
        self.buf@.len() <= self.limit
    }

    pub fn new(limit: usize) -> (r: Self)
        ensures
            r.wf(),
            r@ == BodyV::start(limit as nat),
    {
        let r = BodyReader { limit, buf: Vec::new(), too_large: false, drained: 0 };
        assert(r.buf@ =~= Seq::<u8>::empty());
        r
    }

    /// Takes a piece of the body, and says whether more of it is to be read.
    pub fn on_chunk(&mut self, data: &[u8]) -> (more: bool)
        requires
            old(self).wf(),
            old(self)@.reading(),
        ensures
            final(self).wf(),
            more == old(self)@.add(data@).reading(),
            more ==> final(self)@ == old(self)@.add(data@),
            final(self)@.too_large == old(self)@.add(data@).too_large,
            final(self)@.limit == old(self)@.limit,
    {
        if self.too_large {
            if data.len() > DRAIN_LIMIT - self.drained {
                return false;
            }
            self.drained = self.drained + data.len();
        } else if data.len() > self.limit - self.buf.len() {
            self.too_large = true;
            self.buf = Vec::new();
            assert(self.buf@ =~= Seq::<u8>::empty());
        } else {
            let ghost before = self.buf@;
            self.buf.extend_from_slice(data);
            assert(self.buf@ =~= before + data@);
        }
        true
    }

    /// What came of the body.
    pub fn finish(self) -> (r: Result<Json, BodyError>)
        ensures
            match r {
                Ok(j) => self@.outcome() == Ok::<JsonV, BodyError>(j@),
                Err(e) => self@.outcome() == Err::<JsonV, BodyError>(e),
            },
    {
        if self.too_large {
            return Err(BodyError::TooLarge(self.limit));
        }
        match parse_json_bytes(self.buf.as_slice()) {
            Some(j) => Ok(j),
            None => Err(BodyError::InvalidJson),
        }
    }
}

// ── lines ──────────────────────────────────────────────────────

/// The place of the first newline; the length where there is none.
pub open spec fn newline_at(b: Seq<u8>) -> nat
    decreases b.len(),
{
    if b.len() == 0 || b[0] == 10 {
        0
    } else {
        1 + newline_at(b.skip(1))
    }
}

/// The lines of bytes that a newline ends.
pub open spec fn lines(b: Seq<u8>) -> Seq<Seq<u8>>
    decreases b.len(),
{
    let n = newline_at(b) as int;
    if n < b.len() {
        seq![b.take(n)] + lines(b.skip(n + 1))
    } else {
        Seq::empty()
    }
}

/// What follows the last newline.
pub open spec fn last_line(b: Seq<u8>) -> Seq<u8>
    decreases b.len(),
{
    let n = newline_at(b) as int;
    if n < b.len() {
        last_line(b.skip(n + 1))
    } else {
        b
    }
}

/// Lines as texts.
pub open spec fn line_texts(ls: Seq<Seq<u8>>) -> Seq<Seq<char>> {
    ls.map_values(|l: Seq<u8>| text::utf8_lossy(l))
}

proof fn lemma_newline(b: Seq<u8>)
    ensures
        newline_at(b) <= b.len(),
        newline_at(b) < b.len() ==> b[newline_at(b) as int] == 10,
        forall|i: int| 0 <= i < newline_at(b) ==> #[trigger] b[i] != 10,
    decreases b.len(),
{
    if b.len() > 0 && b[0] != 10 {
        lemma_newline(b.skip(1));
        assert forall|i: int| 0 <= i < newline_at(b) implies #[trigger] b[i] != 10 by {
            if i > 0 {
                assert(b.skip(1)[i - 1] == b[i]);
            }
        }
    }
}

proof fn lemma_newline_first(b: Seq<u8>, n: int)
    requires
        0 <= n <= b.len(),
        n < b.len() ==> b[n] == 10,
        forall|i: int| 0 <= i < n ==> #[trigger] b[i] != 10,
    ensures
        newline_at(b) == n,
    decreases b.len(),
{
    if n > 0 {
        assert(b[0] != 10);
        assert forall|i: int| 0 <= i < n - 1 implies #[trigger] b.skip(1)[i] != 10 by {
            assert(b.skip(1)[i] == b[i + 1]);
        }
        lemma_newline_first(b.skip(1), n - 1);
    }
}

fn bytes_between(b: &Vec<u8>, from: usize, to: usize) -> (r: Vec<u8>)
    requires
        from <= to <= b@.len(),
    ensures
        r@ == b@.subrange(from as int, to as int),
{
    let mut r: Vec<u8> = Vec::new();
    let mut i: usize = from;
    assert(r@ =~= b@.subrange(from as int, from as int));
    while i < to
        invariant
            from <= i <= to <= b@.len(),
            r@ == b@.subrange(from as int, i as int),
        decreases to - i,
    {
        r.push(b[i]);
        i = i + 1;
        assert(b@.subrange(from as int, i as int) =~= b@.subrange(from as int, i - 1).push(b@[i - 1]));
    }
    r
}

fn find_newline(b: &Vec<u8>, from: usize) -> (r: usize)
    requires
        from <= b@.len(),
    ensures
        from <= r <= b@.len(),
        r - from == newline_at(b@.skip(from as int)),
{
    let mut i: usize = from;
    while i < b.len() && b[i] != 10
        invariant
            from <= i <= b@.len(),
            newline_at(b@.skip(from as int)) == (i - from) + newline_at(b@.skip(i as int)),
        decreases b.len() - i,
    {
        assert(b@.skip(i as int).skip(1) =~= b@.skip(i + 1));
        i = i + 1;
    }
    i
}

/// Moves the complete lines of a buffer to a list and leaves the rest in the buffer. A line that
/// is well-formed UTF-8 is decoded as it stands.
pub fn take_lines(buf: &mut Vec<u8>, out: &mut Vec<String>)
    ensures
        final(buf)@ == last_line(old(buf)@),
        text::texts(final(out)@) == text::texts(old(out)@) + line_texts(lines(old(buf)@)),
        forall|i: int|
            0 <= i < lines(old(buf)@).len() && vstd::utf8::valid_utf8(#[trigger] lines(old(buf)@)[i])
                ==> text::texts(final(out)@)[old(out)@.len() + i] == vstd::utf8::decode_utf8(lines(old(buf)@)[i]),
{
    let ghost all = buf@;
    let ghost start = text::texts(out@);
    let total: usize = buf.len();
    let mut from: usize = 0;
    let mut nl: usize = find_newline(buf, 0);
    assert(all.skip(0) =~= all);
    let ghost mut done = Seq::<Seq<u8>>::empty();
    assert(done + lines(all) =~= lines(all));
    assert(start + line_texts(done) =~= start);
    while nl < total
        invariant
            from <= nl <= total == all.len(),
            buf@ == all,
            nl - from == newline_at(all.skip(from as int)),
            done + lines(all.skip(from as int)) == lines(all),
            last_line(all.skip(from as int)) == last_line(all),
            text::texts(out@) == start + line_texts(done),
            forall|i: int|
                0 <= i < done.len() && vstd::utf8::valid_utf8(#[trigger] done[i]) ==> text::utf8_lossy(done[i])
                    == vstd::utf8::decode_utf8(done[i]),
        decreases total - from,
    {
        let ghost rest = all.skip(from as int);
        let line = bytes_between(buf, from, nl);
        assert(line@ =~= rest.take(nl - from));
        assert(rest.skip(nl - from + 1) =~= all.skip(nl + 1));
        push_text(out, from_utf8_lossy(line.as_slice()));
        proof {
            let before = done;
            done = done.push(line@);
            assert(line_texts(done) =~= line_texts(before).push(text::utf8_lossy(line@)));
            assert(start + line_texts(done) =~= (start + line_texts(before)).push(text::utf8_lossy(line@)));
            assert(done + lines(all.skip(nl + 1)) =~= before + lines(rest));
        }
        from = nl + 1;
        nl = find_newline(buf, from);
    }
    assert(lines(all.skip(from as int)) =~= Seq::<Seq<u8>>::empty());
    assert(done =~= lines(all));
    assert forall|i: int|
        0 <= i < lines(all).len() && vstd::utf8::valid_utf8(#[trigger] lines(all)[i]) implies text::texts(out@)[start.len()
        + i] == vstd::utf8::decode_utf8(lines(all)[i]) by {
        assert(text::texts(out@)[start.len() + i] == line_texts(done)[i]);
    }
    let rest = bytes_between(buf, from, total);
    assert(rest@ =~= all.skip(from as int));
    *buf = rest;
}

/// A buffer as the text of a last line.
pub(crate) fn rest_text(buf: &Vec<u8>) -> (r: String)
    ensures
        r@ == text::utf8_lossy(buf@),
        vstd::utf8::valid_utf8(buf@) ==> r@ == vstd::utf8::decode_utf8(buf@),
{
    from_utf8_lossy(buf.as_slice())
}

/// Why an upstream response could not be read to its end.
#[derive(Debug)]
pub enum UpstreamErr {
    /// Nothing came for too long.
    Idle,
    Io(String),
}

// ── replies ────────────────────────────────────────────────────

/// A reply to a client that is not a stream.
#[derive(Debug)]
pub struct Reply {
    pub status: u16,
    pub headers: Vec<(&'static str, String)>,
    pub body: String,
}

/// The model of a reply.
pub struct ReplyV {
    pub status: u16,
    pub headers: Seq<(Seq<char>, Seq<char>)>,
    pub body: Seq<char>,
}

impl Reply {
    pub open spec fn view(&self) -> ReplyV {
        ReplyV { status: self.status, headers: cc::headers_of(self.headers@), body: self.body@ }
    }
}

/// A reply with a JSON body; a time to wait in the body is also a header.
pub open spec fn json_reply(status: u16, body: JsonV) -> ReplyV {
    let plain = Seq::<(Seq<char>, Seq<char>)>::empty().push(("content-type"@, "application/json"@));
    let wait = match body.get("retry_after"@) {
        Some(j) => j.as_u64(),
        None => None,
    };
    ReplyV {
        status,
        headers: match wait {
            Some(n) => plain.push(("retry-after"@, text::decimal(n as nat))),
            None => plain,
        },
        body: json::json_text(body),
    }
}

pub fn json_response(status: u16, body: &Json) -> (r: Reply)
    ensures
        r@ == json_reply(status, body@),
{
    let mut headers = no_headers();
    push_header(&mut headers, "content-type", "application/json".to_owned());
    if let Some(j) = body.get("retry_after") {
        if let Some(n) = j.as_u64() {
            push_header(&mut headers, "retry-after", decimal_u64(n));
        }
    }
    Reply { status, headers, body: json_string(body) }
}

pub fn text_response(status: u16, body: &str) -> (r: Reply)
    ensures
        r@ == (ReplyV {
            status,
            headers: Seq::<(Seq<char>, Seq<char>)>::empty().push(("content-type"@, "text/plain"@)),
            body: body@,
        }),
{
    let mut headers = no_headers();
    push_header(&mut headers, "content-type", "text/plain".to_owned());
    Reply { status, headers, body: body.to_owned() }
}

/// The reply to an upstream failure.
pub fn upstream_error_response(err: &MappedError) -> (r: Reply)
    ensures
        r@ == json_reply(err.status, err.body@),
{
    json_response(err.status, &err.body)
}

/// The headers of an event stream.
pub open spec fn sse_headers() -> Seq<(Seq<char>, Seq<char>)> {
    Seq::empty().push(("content-type"@, "text/event-stream"@)).push(("cache-control"@, "no-cache"@)).push(
        ("connection"@, "keep-alive"@),
    ).push(("x-accel-buffering"@, "no"@))
}

pub fn sse_header_list() -> (r: Vec<(&'static str, String)>)
    ensures
        cc::headers_of(r@) == sse_headers(),
{
    let mut headers = no_headers();
    push_header(&mut headers, "content-type", "text/event-stream".to_owned());
    push_header(&mut headers, "cache-control", "no-cache".to_owned());
    push_header(&mut headers, "connection", "keep-alive".to_owned());
    push_header(&mut headers, "x-accel-buffering", "no".to_owned());
    headers
}

/// A failure that ends a stream before a byte of it was written, so that it is answered like a
/// failed request.
#[derive(Debug)]
pub struct FinalError {
    pub status: u16,
    pub body: Json,
}

/// The model of such a failure.
pub struct FinalErrorV {
    pub status: u16,
    pub body: JsonV,
}

impl FinalError {
    pub open spec fn view(&self) -> FinalErrorV {
        FinalErrorV { status: self.status, body: self.body@ }
    }

    /// The failure in a few words.
    pub fn message(&self) -> (r: String)
        ensures
            r@ == "upstream final error "@ + text::decimal(self.status as nat),
    {
        cat("upstream final error ", decimal_u64(self.status as u64).as_str())
    }
}

/// What a stream turns into, going by its first item: a reply, where it failed or had none.
pub open spec fn opening_reply(first: Option<FinalErrorV>) -> ReplyV {
    match first {
        Some(e) => json_reply(e.status, e.body),
        None => json_reply(
            502,
            JsonV::obj().with(
                "error"@,
                JsonV::obj().with("message"@, JsonV::Str("Upstream error: empty response stream"@)).with(
                    "type"@,
                    JsonV::Str("proxy_error"@),
                ),
            ),
        ),
    }
}

/// The reply in place of a stream whose first item was a failure, or that had none.
pub fn reply_without_stream(first: Option<&FinalError>) -> (r: Reply)
    ensures
        r@ == opening_reply(
            match first {
                Some(e) => Some(e@),
                None => None,
            },
        ),
{
    match first {
        Some(e) => json_response(e.status, &e.body),
        None => json_response(
            502,
            &Json::obj().with(
                "error",
                Json::obj().with_str("message", "Upstream error: empty response stream").with_str(
                    "type",
                    "proxy_error",
                ),
            ),
        ),
    }
}

/// How a stream ends: what is still sent, or the failure that is answered in its place, and
/// whether the count of timeouts in a row starts again.
#[derive(Debug)]
pub struct Ending {
    pub sent: Vec<String>,
    pub failure: Option<FinalError>,
    pub resets_timeouts: bool,
}

/// The model of an ending.
pub struct EndingV {
    pub sent: Seq<Seq<char>>,
    pub failure: Option<FinalErrorV>,
    pub resets_timeouts: bool,
}

impl Ending {
    pub open spec fn view(&self) -> EndingV {
        EndingV {
            sent: text::texts(self.sent@),
            failure: match self.failure {
                Some(e) => Some(e@),
                None => None,
            },
            resets_timeouts: self.resets_timeouts,
        }
    }
}

/// How many timeouts in a row it takes to advise a shorter context.
pub const TIMEOUT_REDUCE_CONTEXT_THRESHOLD: usize = 3;

pub open spec fn timeout_text(consecutive: usize) -> Seq<char> {
    if consecutive >= TIMEOUT_REDUCE_CONTEXT_THRESHOLD {
        "Response timeout - try reducing context length (summarize earlier messages)"@
    } else {
        "Response timeout - request timed out"@
    }
}

pub fn timeout_message(consecutive: usize) -> (r: String)
    ensures
        r@ == timeout_text(consecutive),
{
    if consecutive >= TIMEOUT_REDUCE_CONTEXT_THRESHOLD {
        "Response timeout - try reducing context length (summarize earlier messages)".to_owned()
    } else {
        "Response timeout - request timed out".to_owned()
    }
}

/// A value as one data frame of an event stream.
pub open spec fn data_frame(body: JsonV) -> Seq<char> {
    "data: "@ + json::json_text(body) + "\n\n"@
}

pub fn sse_data(body: &Json) -> (r: String)
    ensures
        r@ == data_frame(body@),
{
    cat3("data: ", json_string(body).as_str(), "\n\n")
}

/// The body of the answer to an upstream response without output.
pub open spec fn empty_response_json() -> JsonV {
    JsonV::obj().with(
        "error"@,
        JsonV::obj().with("message"@, JsonV::Str("Empty response from upstream (zero output tokens)"@)).with(
            "type"@,
            JsonV::Str("rate_limit_error"@),
        ),
    ).with("retry_after"@, json::int_json(10))
}

pub fn empty_response_body() -> (r: Json)
    ensures
        r@ == empty_response_json(),
{
    Json::obj().with(
        "error",
        Json::obj().with_str("message", "Empty response from upstream (zero output tokens)").with_str(
            "type",
            "rate_limit_error",
        ),
    ).with_int("retry_after", 10)
}

// ── what is noted of a request ─────────────────────────────────

/// What is noted of a request while it runs.
#[derive(Debug)]
pub struct StreamCtx {
    pub bytes: usize,
    pub last_event: String,
    pub completed: bool,
    /// When it began, in milliseconds.
    pub start: i64,
}

/// The model of those notes.
pub struct StreamCtxV {
    pub bytes: usize,
    pub last_event: Seq<char>,
    pub completed: bool,
    pub start: i64,
}

/// What logs call the last event.
pub open spec fn event_name(last_event: Seq<char>) -> Seq<char> {
    if last_event.len() == 0 {
        "(none)"@
    } else {
        last_event
    }
}

/// Why a client is thought to have gone away, going by the last upstream event.
pub open spec fn disconnect_reason(last: Seq<char>) -> Seq<char> {
    if text::has_prefix(last, "tool-input"@) {
        "tool-input-silent-timeout"@
    } else if text::holds_text(last, "delta"@) {
        "streaming-active-disconnect"@
    } else {
        "client-hangup"@
    }
}

/// The first `i` members of an object set in another.
pub open spec fn with_members(j: JsonV, extra: json::Members, i: nat) -> JsonV
    decreases i,
{
    if i == 0 {
        j
    } else {
        with_members(j, extra, (i - 1) as nat).with(extra[i - 1].0, extra[i - 1].1)
    }
}

/// The log entry for a client that went away.
pub open spec fn disconnect_entry(
    path: Seq<char>,
    id_key: Seq<char>,
    id: Seq<char>,
    model: Seq<char>,
    streaming: bool,
    elapsed_ms: u64,
    bytes: usize,
    last_event: Seq<char>,
    extra: Option<JsonV>,
) -> JsonV {
    let last = event_name(last_event);
    let entry = JsonV::obj().with("path"@, JsonV::Str(path)).with(id_key, JsonV::Str(id)).with(
        "model"@,
        JsonV::Str(model),
    ).with("reason"@, JsonV::Str(disconnect_reason(last))).with("streaming"@, JsonV::Bool(streaming)).with(
        "elapsedMs"@,
        json::int_json(elapsed_ms as int),
    ).with("bytesReceived"@, json::int_json(bytes as int)).with("lastCcEvent"@, JsonV::Str(last));
    match extra {
        Some(JsonV::Object(es)) => with_members(entry, es, es.len()),
        _ => entry,
    }
}

/// What a log entry for a client that went away says besides the notes.
#[derive(Debug)]
pub struct DisconnectGuard {
    pub path: &'static str,
    pub id_key: &'static str,
    pub id: String,
    pub model: String,
    pub streaming: bool,
    pub extra: Option<Json>,
}

impl StreamCtx {
    pub open spec fn view(&self) -> StreamCtxV {
        StreamCtxV {
            bytes: self.bytes,
            last_event: self.last_event@,
            completed: self.completed,
            start: self.start,
        }
    }

    /// The notes of a request that begins at a time.
    pub fn starting_at(start: i64) -> (r: Self)
        ensures
            r@ == (StreamCtxV { bytes: 0, last_event: Seq::empty(), completed: false, start }),
    {
        let r = StreamCtx { bytes: 0, last_event: String::new(), completed: false, start };
        assert(r.last_event@ =~= Seq::<char>::empty());
        r
    }

    /// The notes of a request that begins now.
    pub fn new() -> (r: Self)
        ensures
            r@ == (StreamCtxV { bytes: 0, last_event: Seq::empty(), completed: false, start: r@.start }),
            0 <= r@.start,
    {
        StreamCtx::starting_at(now_millis())
    }

    pub fn mark_completed(&mut self)
        ensures
            final(self)@ == (StreamCtxV { completed: true, ..old(self)@ }),
    {
        self.completed = true;
    }

    pub fn set_event(&mut self, ev: &str)
        ensures
            final(self)@ == (StreamCtxV { last_event: ev@, ..old(self)@ }),
    {
        self.last_event = ev.to_owned();
    }

    pub fn add_bytes(&mut self, n: usize)
        ensures
            final(self)@ == (StreamCtxV { bytes: old(self)@.bytes.wrapping_add(n), ..old(self)@ }),
    {
        self.bytes = self.bytes.wrapping_add(n);
    }

    pub fn bytes(&self) -> (r: usize)
        ensures
            r == self@.bytes,
    {
        self.bytes
    }

    /// The milliseconds from the beginning to a time; none where the clock went back.
    pub fn elapsed_at(&self, now: i64) -> (r: u64)
        ensures
            r == (if now > self@.start {
                now - self@.start
            } else {
                0
            }),
    {
        if now > self.start {
            (now as i128 - self.start as i128) as u64
        } else {
            0
        }
    }

    pub fn elapsed_ms(&self) -> (r: u64)
        ensures
            exists|now: i64|
                0 <= now && r == (if #[trigger] after(now, self@.start) {
                    now - self@.start
                } else {
                    0
                }),
    {
        let now = now_millis();
        assert(after(now, self@.start) == (now > self@.start));
        self.elapsed_at(now)
    }

    /// What logs call the last event.
    pub fn last_event_name(&self) -> (r: String)
        ensures
            r@ == event_name(self@.last_event),
    {
        if self.last_event.as_str().is_empty() {
            "(none)".to_owned()
        } else {
            self.last_event.clone()
        }
    }

    pub fn guard(
        &self,
        path: &'static str,
        id_key: &'static str,
        id: &str,
        model: &str,
        streaming: bool,
    ) -> (r: DisconnectGuard)
        ensures
            r.path@ == path@,
            r.id_key@ == id_key@,
            r.id@ == id@,
            r.model@ == model@,
            r.streaming == streaming,
            r.extra is None,
    {
        DisconnectGuard { path, id_key, id: id.to_owned(), model: model.to_owned(), streaming, extra: None }
    }
}

pub open spec fn after(a: i64, b: i64) -> bool {
    a > b
}

impl DisconnectGuard {
    /// The log entry when a request ends at a time: none where it was completed.
    pub fn report(&self, ctx: &StreamCtx, now: i64) -> (r: Option<Json>)
        ensures
            json::owned_json(r) == (if ctx@.completed {
                None
            } else {
                Some(
                    disconnect_entry(
                        self.path@,
                        self.id_key@,
                        self.id@,
                        self.model@,
                        self.streaming,
                        (if now > ctx@.start {
                            now - ctx@.start
                        } else {
                            0
                        }) as u64,
                        ctx@.bytes,
                        ctx@.last_event,
                        json::owned_json(self.extra),
                    ),
                )
            }),
    {
        if ctx.completed {
            return None;
        }
        let last = ctx.last_event_name();
        let reason = if starts_with(last.as_str(), "tool-input") {
            "tool-input-silent-timeout"
        } else if contains_text(last.as_str(), "delta") {
            "streaming-active-disconnect"
        } else {
            "client-hangup"
        };
        let mut entry = Json::obj().with_str("path", self.path).with_str(self.id_key, self.id.as_str()).with_str(
            "model",
            self.model.as_str(),
        ).with_str("reason", reason).with("streaming", Json::Bool(self.streaming)).with(
            "elapsedMs",
            Json::of_uint(ctx.elapsed_at(now)),
        ).with("bytesReceived", Json::of_uint(ctx.bytes as u64)).with_str("lastCcEvent", last.as_str());
        if let Some(extra) = &self.extra {
            if let Json::Object(m) = extra {
                entry = set_members(entry, m);
            }
        }
        Some(entry)
    }
}

/// Sets every member of an object in another.
pub(crate) fn set_members(j: Json, m: &JsonMap) -> (r: Json)
    ensures
        r@ == with_members(j@, m@, m@.len()),
{
    let ghost start = j@;
    let mut j = j;
    let mut i: usize = 0;
    while i < m.len()
        invariant
            i <= m@.len(),
            j@ == with_members(start, m@, i as nat),
        decreases m@.len() - i,
    {
        let (k, v) = m.at(i);
        j = j.with(k, v.clone());
        i = i + 1;
    }
    j
}

// ── laws ───────────────────────────────────────────────────────

/// Lines put together again, each with its newline.
pub open spec fn with_newlines(ls: Seq<Seq<u8>>) -> Seq<u8>
    decreases ls.len(),
{
    if ls.len() == 0 {
        Seq::empty()
    } else {
        ls[0] + seq![10u8] + with_newlines(ls.skip(1))
    }
}

/// The lines with their newlines and the rest are the bytes that came, and no line holds a
/// newline.
pub proof fn lines_lose_nothing(b: Seq<u8>)
    ensures
        with_newlines(lines(b)) + last_line(b) == b,
        forall|i: int, j: int|
            0 <= i < lines(b).len() && 0 <= j < lines(b)[i].len() ==> #[trigger] lines(b)[i][j] != 10,
        forall|j: int| 0 <= j < last_line(b).len() ==> #[trigger] last_line(b)[j] != 10,
    decreases b.len(),
{
    lemma_newline(b);
    let n = newline_at(b) as int;
    if n < b.len() {
        let rest = b.skip(n + 1);
        lines_lose_nothing(rest);
        let ls = lines(b);
        assert(ls.skip(1) =~= lines(rest));
        assert(ls[0] == b.take(n));
        assert(with_newlines(ls) + last_line(b) =~= b.take(n) + seq![10u8] + (with_newlines(lines(rest))
            + last_line(rest)));
        assert(b.take(n) + seq![10u8] + rest =~= b);
        assert forall|i: int, j: int| 0 <= i < ls.len() && 0 <= j < ls[i].len() implies #[trigger] ls[i][j] != 10 by {
            if i > 0 {
                assert(ls[i] == lines(rest)[i - 1]);
            }
        }
    } else {
        assert(with_newlines(lines(b)) + last_line(b) =~= b);
    }
}

/// It makes no difference to the lines how the bytes were cut into pieces.
pub proof fn lines_ignore_cuts(a: Seq<u8>, b: Seq<u8>)
    ensures
        lines(a + b) == lines(a) + lines(last_line(a) + b),
        last_line(a + b) == last_line(last_line(a) + b),
    decreases a.len(),
{
    lemma_newline(a);
    let n = newline_at(a) as int;
    if n < a.len() {
        let rest = a.skip(n + 1);
        lines_ignore_cuts(rest, b);
        assert forall|i: int| 0 <= i < n implies #[trigger] (a + b)[i] != 10 by {
            assert((a + b)[i] == a[i]);
        }
        lemma_newline_first(a + b, n);
        assert((a + b).take(n) =~= a.take(n));
        assert((a + b).skip(n + 1) =~= rest + b);
        assert(lines(a + b) =~= lines(a) + lines(last_line(a) + b));
    } else {
        assert(lines(a + b) =~= lines(a) + lines(last_line(a) + b));
    }
}

/// The bytes of pieces put together.
pub open spec fn joined_pieces(pieces: Seq<Seq<u8>>) -> Seq<u8>
    decreases pieces.len(),
{
    if pieces.len() == 0 {
        Seq::empty()
    } else {
        joined_pieces(pieces.drop_last()) + pieces.last()
    }
}

/// A body is refused for its size exactly where all of it together is beyond the limit, and else
/// it is all kept, however it was cut into pieces.
pub proof fn body_limit_is_exact(limit: nat, pieces: Seq<Seq<u8>>)
    ensures
        body_after(limit, pieces).too_large == (joined_pieces(pieces).len() > limit),
        joined_pieces(pieces).len() <= limit ==> body_after(limit, pieces).received == joined_pieces(pieces),
        body_after(limit, pieces).limit == limit,
    decreases pieces.len(),
{
    if pieces.len() > 0 {
        body_limit_is_exact(limit, pieces.drop_last());
    }
}

/// The answer to a response without output tells that it may be retried after a while.
pub proof fn empty_response_members()
    ensures
        empty_response_json().get("retry_after"@) == Some(json::int_json(10)),
        empty_response_json().get2("error"@, "type"@) == Some(JsonV::Str("rate_limit_error"@)),
{
    broadcast use json::group_members;

    reveal_strlit("error");
    reveal_strlit("retry_after");
    reveal_strlit("type");
    reveal_strlit("message");
    assert("error"@.len() != "retry_after"@.len());
    assert("type"@.len() != "message"@.len());
    let inner = JsonV::obj().with(
        "message"@,
        JsonV::Str("Empty response from upstream (zero output tokens)"@),
    ).with("type"@, JsonV::Str("rate_limit_error"@));
    assert(inner.get("type"@) == Some(JsonV::Str("rate_limit_error"@)));
    assert(JsonV::obj().with("error"@, inner).get("error"@) == Some(inner));
}

} // verus!
