//! What an upstream failure is answered with, and the normal forms of finish reasons and usage.

use vstd::prelude::*;
use crate::float;
use crate::float::{Double, FloatV};
use crate::json;
use crate::json::{copy_opt_json, json_string, parse_json, Json, JsonV};
use crate::text;
use crate::text::{cat3, chars_of, decimal_u64, matches_at, same, space, take_chars, to_lowercase, trim};
use crate::util;
use crate::util::{base64_encode, num, sha256_bytes};

verus! {

/// An upstream failure as the client is told of it.
pub struct MappedError {
    pub status: u16,
    pub code: Option<Json>,
    pub reported_status: Option<u16>,
    pub body: Json,
}

/// The model of a mapped error.
pub struct MappedErrorV {
    pub status: u16,
    pub code: Option<JsonV>,
    pub reported_status: Option<u16>,
    pub body: JsonV,
}

impl MappedErrorV {
    pub open spec fn error_type(self) -> Seq<char> {
        match json::str_in(self.body.get2("error"@, "type"@)) {
            Some(s) => s,
            None => "upstream_error"@,
        }
    }

    pub open spec fn error_message(self) -> Seq<char> {
        match json::str_in(self.body.get2("error"@, "message"@)) {
            Some(s) => s,
            None => "Upstream error"@,
        }
    }

    pub open spec fn retry_after(self) -> Option<u64> {
        match self.body.get("retry_after"@) {
            Some(j) => j.as_u64(),
            None => None,
        }
    }
}

pub open spec fn opt_mapped(o: Option<MappedError>) -> Option<MappedErrorV> {
    match o {
        Some(e) => Some(e@),
        None => None,
    }
}

impl MappedError {
    pub open spec fn view(&self) -> MappedErrorV {
        MappedErrorV {
            status: self.status,
            code: json::owned_json(self.code),
            reported_status: self.reported_status,
            body: self.body@,
        }
    }

    pub fn error_type(&self) -> (r: String)
        ensures
            r@ == self@.error_type(),
    {
        match self.body.get2("error", "type") {
            Some(j) => match j.as_str() {
                Some(s) => s.to_owned(),
                None => "upstream_error".to_owned(),
            },
            None => "upstream_error".to_owned(),
        }
    }

    pub fn error_message(&self) -> (r: String)
        ensures
            r@ == self@.error_message(),
    {
        match self.body.get2("error", "message") {
            Some(j) => match j.as_str() {
                Some(s) => s.to_owned(),
                None => "Upstream error".to_owned(),
            },
            None => "Upstream error".to_owned(),
        }
    }

    pub fn retry_after(&self) -> (r: Option<u64>)
        ensures
            r == self@.retry_after(),
    {
        match self.body.get("retry_after") {
            Some(j) => j.as_u64(),
            None => None,
        }
    }
}

impl Clone for MappedError {
    fn clone(&self) -> (r: Self)
        ensures
            r@ == self@,
    {
        MappedError {
            status: self.status,
            code: copy_opt_json(self.code.as_ref()),
            reported_status: self.reported_status,
            body: self.body.clone(),
        }
    }
}

// ── status codes ───────────────────────────────────────────────

/// The status and the error type that the client gets for an upstream status.
pub open spec fn status_map(cc_status: u16) -> (u16, Seq<char>) {
    match cc_status {
        402 => (429, "rate_limit_error"@),
        403 => (401, "authentication_error"@),
        422 => (400, "invalid_request_error"@),
        503 => (503, "temporarily_unavailable"@),
        _ => (502, "upstream_error"@),
    }
}

fn cc_status_map(cc_status: u16) -> (r: (u16, &'static str))
    ensures
        (r.0, r.1@) == status_map(cc_status),
{
    match cc_status {
        402 => (429, "rate_limit_error"),
        403 => (401, "authentication_error"),
        422 => (400, "invalid_request_error"),
        503 => (503, "temporarily_unavailable"),
        _ => (502, "upstream_error"),
    }
}

pub open spec fn error_json(message: Seq<char>, ty: Seq<char>, code: Option<JsonV>, retry_after: Option<u64>) -> JsonV {
    JsonV::obj().with(
        "error"@,
        JsonV::obj().with("message"@, JsonV::Str(message)).with("type"@, JsonV::Str(ty)).with_some("code"@, code),
    ).with_some("retry_after"@, count_json(retry_after))
}

pub open spec fn count_json(n: Option<u64>) -> Option<JsonV> {
    match n {
        Some(n) => Some(json::int_json(n as int)),
        None => None,
    }
}

pub(crate) fn count_value(n: Option<u64>) -> (r: Option<Json>)
    ensures
        json::owned_json(r) == count_json(n),
{
    match n {
        Some(n) => Some(Json::of_uint(n)),
        None => None,
    }
}

fn error_body(message: &str, ty: &str, code: &Option<Json>, retry_after: Option<u64>) -> (r: Json)
    ensures
        r@ == error_json(message@, ty@, json::owned_json(*code), retry_after),
{
    let err = Json::obj().with_str("message", message).with_str("type", ty).with_some(
        "code",
        copy_opt_json(code.as_ref()),
    );
    Json::obj().with("error", err).with_some("retry_after", count_value(retry_after))
}

/// A member of an error report: of its member `error`, else of the report itself.
pub open spec fn error_member(report: JsonV, k: Seq<char>) -> Option<JsonV> {
    match report.get2("error"@, k) {
        Some(v) => Some(v),
        None => report.get(k),
    }
}

fn get_error_member<'a>(report: &'a Json, k: &str) -> (r: Option<&'a Json>)
    ensures
        json::opt_json(r) == error_member(report@, k@),
{
    match report.get2("error", k) {
        Some(v) => Some(v),
        None => report.get(k),
    }
}

/// A text as it stands, any other value as JSON.
pub open spec fn shown(j: JsonV) -> Seq<char> {
    match j {
        JsonV::Str(s) => s,
        _ => json::json_text(j),
    }
}

pub(crate) fn show(j: &Json) -> (r: String)
    ensures
        r@ == shown(j@),
{
    match j {
        Json::Str(s) => s.clone(),
        _ => json_string(j),
    }
}

pub open spec fn non_null(o: Option<JsonV>) -> Option<JsonV> {
    match o {
        Some(JsonV::Null) => None,
        o => o,
    }
}

fn copy_non_null(o: Option<&Json>) -> (r: Option<Json>)
    ensures
        json::owned_json(r) == non_null(json::opt_json(o)),
{
    match o {
        Some(j) => if j.is_null() {
            None
        } else {
            Some(j.clone())
        },
        None => None,
    }
}

/// The message for an upstream response with an error status.
pub open spec fn response_message(cc_status: u16, cc_body: Option<Seq<char>>) -> Seq<char> {
    let plain = "CC API error ("@ + text::decimal(cc_status as nat) + ")"@;
    match cc_body {
        Some(t) => if t.len() == 0 {
            plain
        } else {
            match json::json_parsed(t) {
                Some(report) => match error_member(report, "message"@) {
                    Some(m) => shown(m),
                    None => plain,
                },
                None => if t.len() > 200 {
                    t.take(200)
                } else {
                    t
                },
            }
        },
        None => plain,
    }
}

/// The error code in the body of an upstream response.
pub open spec fn response_code(cc_body: Option<Seq<char>>) -> Option<JsonV> {
    match cc_body {
        Some(t) => if t.len() == 0 {
            None
        } else {
            match json::json_parsed(t) {
                Some(report) => non_null(error_member(report, "code"@)),
                None => None,
            }
        },
        None => None,
    }
}

/// The answer to an upstream response with an error status.
pub open spec fn response_error(cc_status: u16, cc_body: Option<Seq<char>>) -> MappedErrorV {
    let code = response_code(cc_body);
    let message = response_message(cc_status, cc_body);
    let (status, ty) = status_map(cc_status);
    MappedErrorV {
        status,
        code,
        reported_status: None,
        body: error_json(
            message,
            ty,
            code,
            if cc_status == 429 {
                Some(30)
            } else {
                None
            },
        ),
    }
}

/// Maps an upstream response with an error status.
pub fn map_cc_error(cc_status: u16, cc_body: Option<&str>) -> (r: MappedError)
    ensures
        r@ == response_error(cc_status, text::str_opt(cc_body)),
{
    let (status, ty) = cc_status_map(cc_status);
    let mut message = cat3("CC API error (", decimal_u64(cc_status as u64).as_str(), ")");
    let mut code: Option<Json> = None;
    if let Some(t) = cc_body {
        if !t.is_empty() {
            match parse_json(t) {
                Some(report) => {
                    if let Some(m) = get_error_member(&report, "message") {
                        message = show(m);
                    }
                    code = copy_non_null(get_error_member(&report, "code"));
                },
                None => {
                    message = take_chars(t, 200);
                    assert(t@.len() <= 200 ==> message@ =~= t@);
                },
            }
        }
    }
    let retry_after: Option<u64> = if cc_status == 429 {
        Some(30)
    } else {
        None
    };
    let body = error_body(message.as_str(), ty, &code, retry_after);
    MappedError { status, code, reported_status: None, body }
}

/// The status in a message that begins with three digits in angle brackets.
pub open spec fn embedded_status_of(m: Seq<char>) -> Option<u16> {
    if m.len() >= 5 && m[0] == '<' && m[4] == '>' && text::is_digit_char(m[1]) && text::is_digit_char(m[2])
        && text::is_digit_char(m[3]) {
        Some(((m[1] as u32 - 48) * 100 + (m[2] as u32 - 48) * 10 + (m[3] as u32 - 48)) as u16)
    } else {
        None
    }
}

fn embedded_status(message: &str) -> (r: Option<u16>)
    ensures
        r == embedded_status_of(message@),
{
    let b = chars_of(message);
    if b.len() < 5 || b[0] != '<' || b[4] != '>' {
        return None;
    }
    if !('0' <= b[1] && b[1] <= '9') || !('0' <= b[2] && b[2] <= '9') || !('0' <= b[3] && b[3] <= '9') {
        return None;
    }
    let n: u32 = (b[1] as u32 - 48) * 100 + (b[2] as u32 - 48) * 10 + (b[3] as u32 - 48);
    Some(n as u16)
}

/// The message of an error event.
pub open spec fn event_message(event: JsonV) -> Seq<char> {
    match error_member(event, "message"@) {
        Some(m) => shown(m),
        None => "Unknown CC error"@,
    }
}

/// The status that an error event reports: in its message, else in the member `statusCode` where
/// that is a whole number of the range of a status.
pub open spec fn event_status(event: JsonV) -> Option<u16> {
    match embedded_status_of(event_message(event)) {
        Some(n) => Some(n),
        None => match util::number_in(event.get2("error"@, "statusCode"@)) {
            Some(f) => float::float_to_u16(f),
            None => None,
        },
    }
}

/// The answer to an error event in the upstream stream.
pub open spec fn event_error(event: JsonV) -> MappedErrorV {
    let code = non_null(error_member(event, "code"@));
    let reported = event_status(event);
    let (status, ty) = status_map(
        match reported {
            Some(n) => n,
            None => 502,
        },
    );
    MappedErrorV {
        status,
        code,
        reported_status: reported,
        body: error_json(
            event_message(event),
            ty,
            code,
            if status == 429 {
                Some(30)
            } else {
                None
            },
        ),
    }
}

/// Maps an error event in the upstream stream.
pub fn map_cc_event_error(event: &Json) -> (r: MappedError)
    ensures
        r@ == event_error(event@),
{
    let message = match get_error_member(event, "message") {
        Some(m) => show(m),
        None => "Unknown CC error".to_owned(),
    };
    let code = copy_non_null(get_error_member(event, "code"));
    let reported_status: Option<u16> = match embedded_status(message.as_str()) {
        Some(n) => Some(n),
        None => match num(event.get2("error", "statusCode")) {
            Some(d) => d.to_u16(),
            None => None,
        },
    };
    let cc_status: u16 = match reported_status {
        Some(n) => n,
        None => 502,
    };
    let (status, ty) = cc_status_map(cc_status);
    let retry_after: Option<u64> = if status == 429 {
        Some(30)
    } else {
        None
    };
    let body = error_body(message.as_str(), ty, &code, retry_after);
    MappedError { status, code, reported_status, body }
}

// ── streams that did not run to their end ──────────────────────

/// What kept an upstream stream from being complete, if anything did.
pub open spec fn incomplete_detail_of(saw_finish: bool, finish_reason: Option<Seq<char>>) -> Option<Seq<char>> {
    if !saw_finish {
        Some("no finish event"@)
    } else if finish_reason == Some("upstream_error"@) {
        Some("provider reported an upstream connection failure"@)
    } else {
        None
    }
}

pub fn incomplete_upstream_detail(saw_finish: bool, finish_reason: Option<&str>) -> (r: Option<&'static str>)
    ensures
        text::str_opt(r) == incomplete_detail_of(saw_finish, text::str_opt(finish_reason)),
{
    if !saw_finish {
        return Some("no finish event");
    }
    if let Some(fr) = finish_reason {
        if same(fr, "upstream_error") {
            return Some("provider reported an upstream connection failure");
        }
    }
    None
}

/// The answer where the upstream stream was not complete.
pub open spec fn incomplete_error(detail: Seq<char>) -> MappedErrorV {
    MappedErrorV {
        status: 502,
        code: None,
        reported_status: None,
        body: error_json(
            "Upstream stream ended without a completion finish ("@ + detail + ") — response was truncated"@,
            "upstream_error"@,
            None,
            Some(10),
        ),
    }
}

pub fn incomplete_upstream_error(detail: &str) -> (r: MappedError)
    ensures
        r@ == incomplete_error(detail@),
{
    let message = cat3(
        "Upstream stream ended without a completion finish (",
        detail,
        ") — response was truncated",
    );
    let code: Option<Json> = None;
    let body = error_body(message.as_str(), "upstream_error", &code, Some(10));
    MappedError { status: 502, code: None, reported_status: None, body }
}

// ── finish reasons ─────────────────────────────────────────────

/// Whether a reason is `p`, an optional `-`, `_` or white space, and `error`.
pub open spec fn failure_of(r: Seq<char>, p: Seq<char>) -> bool {
    match text::after_prefix(r, p) {
        Some(rest) => rest == "error"@ || (rest.len() > 0 && (rest[0] == '-' || rest[0] == '_' || text::is_space(
            rest[0],
        )) && rest.skip(1) == "error"@),
        None => false,
    }
}

/// Whether a reason stands for a failed connection.
pub open spec fn network_failure(r: Seq<char>) -> bool {
    failure_of(r, "network"@) || failure_of(r, "connection"@) || failure_of(r, "upstream"@)
}

fn is_failure_of(r: &Vec<char>, p: &str) -> (res: bool)
    ensures
        res == failure_of(r@, p@),
{
    let ps = chars_of(p);
    let es = chars_of("error");
    assert(r@.skip(0) =~= r@);
    if !matches_at(r, 0, &ps) {
        return false;
    }
    let n: usize = ps.len();
    let ghost rest = r@.skip(n as int);
    let total: usize = r.len();
    if matches_at(r, n, &es) && total - n == es.len() {
        assert(rest.take(rest.len() as int) =~= rest);
        return true;
    }
    proof {
        if rest == "error"@ {
            assert(rest.take(rest.len() as int) =~= rest);
        }
    }
    if n < total && (r[n] == '-' || r[n] == '_' || space(r[n])) {
        assert(rest.skip(1) =~= r@.skip(n + 1));
        let ghost tail = rest.skip(1);
        let ok = matches_at(r, n + 1, &es) && total - n - 1 == es.len();
        assert(tail.take(tail.len() as int) =~= tail);
        ok
    } else {
        false
    }
}

fn is_network_failure_finish(r: &str) -> (res: bool)
    ensures
        res == network_failure(r@),
{
    let cs = chars_of(r);
    is_failure_of(&cs, "network") || is_failure_of(&cs, "connection") || is_failure_of(&cs, "upstream")
}

/// The normal form of a finish reason. The reasons for a cut-off answer all become `length`,
/// those for a failed connection `upstream_error`.
pub open spec fn finish_reason_of(reason: Seq<char>) -> Seq<char> {
    let r = text::lowercase(text::trimmed(reason));
    if r.len() == 0 {
        "stop"@
    } else if r == "tool-calls"@ || r == "tool_calls"@ || r == "tool_use"@ {
        "tool_calls"@
    } else if r == "length"@ || r == "max_tokens"@ || r == "max_output_tokens"@ || r
        == "model_context_window_exceeded"@ {
        "length"@
    } else if network_failure(r) {
        "upstream_error"@
    } else {
        r
    }
}

pub fn map_finish_reason(reason: &str) -> (r: String)
    ensures
        r@ == finish_reason_of(reason@),
{
    let r = to_lowercase(trim(reason).as_str());
    let s = r.as_str();
    if s.is_empty() {
        "stop".to_owned()
    } else if same(s, "tool-calls") || same(s, "tool_calls") || same(s, "tool_use") {
        "tool_calls".to_owned()
    } else if same(s, "length") || same(s, "max_tokens") || same(s, "max_output_tokens") || same(
        s,
        "model_context_window_exceeded",
    ) {
        "length".to_owned()
    } else if is_network_failure_finish(s) {
        "upstream_error".to_owned()
    } else {
        r
    }
}

pub open spec fn stop_reason_of(finish_reason: Seq<char>) -> Seq<char> {
    if finish_reason == "tool_calls"@ {
        "tool_use"@
    } else if finish_reason == "length"@ {
        "max_tokens"@
    } else if finish_reason == "pause_turn"@ {
        "pause_turn"@
    } else if finish_reason == "refusal"@ {
        "refusal"@
    } else {
        "end_turn"@
    }
}

pub fn map_anthropic_stop_reason(finish_reason: &str) -> (r: &'static str)
    ensures
        r@ == stop_reason_of(finish_reason@),
{
    if same(finish_reason, "tool_calls") {
        "tool_use"
    } else if same(finish_reason, "length") {
        "max_tokens"
    } else if same(finish_reason, "pause_turn") {
        "pause_turn"
    } else if same(finish_reason, "refusal") {
        "refusal"
    } else {
        "end_turn"
    }
}

/// The reason as OpenAI clients know it: a paused turn is told as a cut-off one.
pub open spec fn openai_reason(finish_reason: Seq<char>) -> Seq<char> {
    if finish_reason == "pause_turn"@ {
        "length"@
    } else {
        finish_reason
    }
}

pub fn to_openai_finish_reason(finish_reason: &str) -> (r: &str)
    ensures
        r@ == openai_reason(finish_reason@),
{
    if same(finish_reason, "pause_turn") {
        "length"
    } else {
        finish_reason
    }
}

// ── usage ──────────────────────────────────────────────────────

/// Whether a usage report names some output.
pub open spec fn has_output(u: JsonV) -> bool {
    match util::number_in(u.get("outputTokens"@)) {
        Some(f) => !float::float_is_zero(f),
        None => false,
    }
}

/// A usage report without output reports no input either.
pub open spec fn usage_normal(u: JsonV) -> JsonV {
    if u is Object && !has_output(u) {
        u.with("inputTokens"@, json::int_json(0)).with("cachedInputTokens"@, json::int_json(0))
    } else {
        u
    }
}

pub fn normalize_usage(u: &mut Json)
    ensures
        final(u)@ == usage_normal(old(u)@),
{
    if !u.is_object() {
        return;
    }
    let some_output = match num(u.get("outputTokens")) {
        Some(d) => !d.is_zero(),
        None => false,
    };
    if !some_output {
        let mut t = Json::Null;
        std::mem::swap(u, &mut t);
        *u = t.with_int("inputTokens", 0).with_int("cachedInputTokens", 0);
    }
}

/// The number in a member, or zero.
pub open spec fn float_or_zero(v: Option<JsonV>) -> FloatV {
    match util::number_in(v) {
        Some(f) => f,
        None => float::float_of_int(0),
    }
}

fn double_or_zero(v: Option<&Json>) -> (r: Double)
    ensures
        r.wf(),
        r@ == float_or_zero(json::opt_json(v)),
{
    match num(v) {
        Some(d) => d,
        None => Double::from_u64(0),
    }
}

/// The input tokens as Anthropic counts them, without what came from or went to the cache: as
/// reported, else the total less the cached and the written ones, and never below zero.
pub open spec fn input_tokens_of(usage: Option<JsonV>, no_cache_override: Option<i64>) -> i64 {
    match no_cache_override {
        Some(v) if v >= 0 => v,
        _ => match usage {
            None => 0,
            Some(u) => match util::number_in(u.get2("inputTokenDetails"@, "noCacheTokens"@)) {
                Some(n) if float::float_at_least_zero(n) => float::float_to_i64(n),
                _ => {
                    let read = match util::number_in(u.get("cachedInputTokens"@)) {
                        Some(f) => f,
                        None => float_or_zero(u.get2("inputTokenDetails"@, "cacheReadTokens"@)),
                    };
                    let written = float_or_zero(u.get2("inputTokenDetails"@, "cacheWriteTokens"@));
                    let input = float_or_zero(u.get("inputTokens"@));
                    let n = float::float_to_i64(float::float_sub(float::float_sub(input, read), written));
                    if n < 0 {
                        0
                    } else {
                        n
                    }
                },
            },
        },
    }
}

pub fn anthropic_input_tokens(usage: Option<&Json>, no_cache_override: Option<i64>) -> (r: i64)
    ensures
        r == input_tokens_of(json::opt_json(usage), no_cache_override),
{
    if let Some(v) = no_cache_override {
        if v >= 0 {
            return v;
        }
    }
    let u = match usage {
        Some(u) => u,
        None => return 0,
    };
    if let Some(n) = num(u.get2("inputTokenDetails", "noCacheTokens")) {
        if n.at_least_zero() {
            return n.to_i64();
        }
    }
    let read = match num(u.get("cachedInputTokens")) {
        Some(d) => d,
        None => double_or_zero(u.get2("inputTokenDetails", "cacheReadTokens")),
    };
    let written = double_or_zero(u.get2("inputTokenDetails", "cacheWriteTokens"));
    let input = double_or_zero(u.get("inputTokens"));
    let n: i64 = input.minus(read).minus(written).to_i64();
    if n < 0 {
        0
    } else {
        n
    }
}

// ── signatures ─────────────────────────────────────────────────

/// What is signed for a thinking text.
pub open spec fn signature_seed(thinking: Seq<char>) -> Seq<char> {
    if thinking.len() == 0 {
        "dsh-proxy-thinking"@
    } else {
        thinking
    }
}

/// The signature of a thinking text: base64 of the byte 0x12, a length and that many bytes.
pub open spec fn signature_of(thinking: Seq<char>) -> Seq<char> {
    util::base64_text(
        seq![0x12u8, 32u8] + util::sha256(vstd::utf8::encode_utf8(signature_seed(thinking))),
    )
}

/// The signature is deterministic, its payload begins with the byte 0x12, and its text with `E`.
pub fn fake_thinking_signature(thinking_text: &str) -> (r: String)
    ensures
        r@ == signature_of(thinking_text@),
        r@.len() == 48,
        r@[0] == 'E',
{
    let seed = if thinking_text.is_empty() {
        "dsh-proxy-thinking"
    } else {
        thinking_text
    };
    let d = sha256_bytes(seed.as_bytes());
    let mut raw: Vec<u8> = Vec::new();
    raw.push(0x12);
    raw.push(32);
    let mut i: usize = 0;
    while i < 32
        invariant
            i <= 32,
            raw@ == seq![0x12u8, 32u8] + d@.take(i as int),
        decreases 32 - i,
    {
        raw.push(d[i]);
        i = i + 1;
        assert(d@.take(i as int) =~= d@.take(i - 1).push(d@[i - 1]));
    }
    assert(d@.take(32) =~= d@);
    proof {
        lemma_base64_len(raw@);
    }
    base64_encode(raw.as_slice())
}

proof fn lemma_base64_len(b: Seq<u8>)
    ensures
        util::base64_text(b).len() == (b.len() + 2) / 3 * 4,
        b.len() > 0 ==> util::base64_text(b)[0] == util::base64_char(b[0] as int / 4),
    decreases b.len(),
{
    if b.len() > 2 {
        lemma_base64_len(b.skip(3));
    }
}

// ── laws ───────────────────────────────────────────────────────

/// The members of an error body can be read back.
pub proof fn error_body_members(message: Seq<char>, ty: Seq<char>, code: Option<JsonV>, retry_after: Option<u64>)
    ensures
        ({
            let body = error_json(message, ty, code, retry_after);
            &&& body.get2("error"@, "message"@) == Some(JsonV::Str(message))
            &&& body.get2("error"@, "type"@) == Some(JsonV::Str(ty))
            &&& body.get2("error"@, "code"@) == code
            &&& body.get("retry_after"@) == count_json(retry_after)
        }),
{
    broadcast use json::get_of_with;

    reveal_strlit("error");
    reveal_strlit("retry_after");
    reveal_strlit("type");
    reveal_strlit("code");
    reveal_strlit("message");
    let plain = JsonV::obj().with("message"@, JsonV::Str(message)).with("type"@, JsonV::Str(ty));
    assert("type"@[0] == 't');
    assert("code"@[0] == 'c');
    assert(plain.get("message"@) == Some(JsonV::Str(message)));
    assert(plain.get("type"@) == Some(JsonV::Str(ty)));
    assert(plain.get("code"@) is None);
    let inner = plain.with_some("code"@, code);
    assert(inner.get("message"@) == Some(JsonV::Str(message)));
    assert(inner.get("type"@) == Some(JsonV::Str(ty)));
    assert(inner.get("code"@) == code);
    let outer = JsonV::obj().with("error"@, inner);
    assert("error"@.len() != "retry_after"@.len());
    assert(outer.get("error"@) == Some(inner));
    assert(JsonV::obj().get("retry_after"@) is None);
    assert(outer.get("retry_after"@) is None);
    let body = outer.with_some("retry_after"@, count_json(retry_after));
    assert(body.get("error"@) == Some(inner));
}

/// A stream that was cut off is an upstream error that the client may retry after a while.
pub proof fn cut_off_can_be_retried(detail: Seq<char>)
    ensures
        incomplete_error(detail).status == 502,
        incomplete_error(detail).error_type() == "upstream_error"@,
        incomplete_error(detail).retry_after() == Some(10u64),
        incomplete_error(detail).body.get("retry_after"@) == Some(json::int_json(10)),
{
    let message = "Upstream stream ended without a completion finish ("@ + detail + ") — response was truncated"@;
    error_body_members(message, "upstream_error"@, None, Some(10));
}

/// An error event is told with one of few statuses, and with a time to wait exactly where that is
/// 429.
pub proof fn error_events_have_few_statuses(event: JsonV)
    ensures
        ({
            let e = event_error(event);
            &&& e.status == 400 || e.status == 401 || e.status == 429 || e.status == 502 || e.status == 503
            &&& e.retry_after() == (if e.status == 429 {
                Some(30u64)
            } else {
                None
            })
            &&& e.error_message() == event_message(event)
        }),
{
    let e = event_error(event);
    let (status, ty) = status_map(
        match event_status(event) {
            Some(n) => n,
            None => 502,
        },
    );
    error_body_members(
        event_message(event),
        ty,
        non_null(error_member(event, "code"@)),
        if status == 429 {
            Some(30)
        } else {
            None
        },
    );
}

/// An upstream response with an error status is told with one of few statuses, and with a time to
/// wait exactly where the upstream itself said 429.
pub proof fn error_responses_have_few_statuses(cc_status: u16, cc_body: Option<Seq<char>>)
    ensures
        ({
            let e = response_error(cc_status, cc_body);
            &&& e.status == 400 || e.status == 401 || e.status == 429 || e.status == 502 || e.status == 503
            &&& e.retry_after() == (if cc_status == 429 {
                Some(30u64)
            } else {
                None
            })
            &&& e.error_message() == response_message(cc_status, cc_body)
        }),
{
    let (status, ty) = status_map(cc_status);
    error_body_members(
        response_message(cc_status, cc_body),
        ty,
        response_code(cc_body),
        if cc_status == 429 {
            Some(30)
        } else {
            None
        },
    );
}

/// An answer that was cut off, for whatever of the known reasons, is told as such and never as one
/// that came to its end.
pub proof fn cut_off_answers_are_told_so(reason: Seq<char>)
    requires
        ({
            let r = text::lowercase(text::trimmed(reason));
            r == "length"@ || r == "max_tokens"@ || r == "max_output_tokens"@ || r
                == "model_context_window_exceeded"@
        }),
    ensures
        finish_reason_of(reason) == "length"@,
        openai_reason(finish_reason_of(reason)) == "length"@,
        stop_reason_of(finish_reason_of(reason)) == "max_tokens"@,
        incomplete_detail_of(true, Some(finish_reason_of(reason))) is None,
{
    reveal_strlit("length");
    reveal_strlit("max_tokens");
    reveal_strlit("max_output_tokens");
    reveal_strlit("model_context_window_exceeded");
    reveal_strlit("tool-calls");
    reveal_strlit("tool_calls");
    reveal_strlit("tool_use");
    reveal_strlit("pause_turn");
    reveal_strlit("upstream_error");
    let r = text::lowercase(text::trimmed(reason));
    assert(r[0] == 'l' || r[0] == 'm');
    assert("tool-calls"@[0] == 't');
    assert("tool_calls"@[0] == 't');
    assert("tool_use"@[0] == 't');
    assert("pause_turn"@[0] == 'p');
    assert("length"@.len() == 6 && "upstream_error"@.len() == 14);
}

/// An answer that ends with tool calls is told so, however the upstream spells it.
pub proof fn tool_calls_are_told_so(reason: Seq<char>)
    requires
        ({
            let r = text::lowercase(text::trimmed(reason));
            r == "tool-calls"@ || r == "tool_calls"@ || r == "tool_use"@
        }),
    ensures
        openai_reason(finish_reason_of(reason)) == "tool_calls"@,
        stop_reason_of(finish_reason_of(reason)) == "tool_use"@,
{
    reveal_strlit("tool-calls");
    reveal_strlit("tool_calls");
    reveal_strlit("tool_use");
    reveal_strlit("pause_turn");
    assert("tool_calls"@[0] == 't' && "pause_turn"@[0] == 'p');
}

proof fn lemma_failure_first(r: Seq<char>, p: Seq<char>)
    requires
        failure_of(r, p),
        p.len() > 0,
    ensures
        r.len() > 0,
        r[0] == p[0],
{
    assert(r.take(p.len() as int)[0] == p[0]);
}

/// An end for a failed connection is never told as the end of an answer.
pub proof fn failed_connections_are_told_so(reason: Seq<char>)
    requires
        network_failure(text::lowercase(text::trimmed(reason))),
    ensures
        finish_reason_of(reason) == "upstream_error"@,
        incomplete_detail_of(true, Some(finish_reason_of(reason))) is Some,
{
    reveal_strlit("length");
    reveal_strlit("max_tokens");
    reveal_strlit("max_output_tokens");
    reveal_strlit("model_context_window_exceeded");
    reveal_strlit("tool-calls");
    reveal_strlit("tool_calls");
    reveal_strlit("tool_use");
    reveal_strlit("network");
    reveal_strlit("connection");
    reveal_strlit("upstream");
    let r = text::lowercase(text::trimmed(reason));
    if failure_of(r, "network"@) {
        lemma_failure_first(r, "network"@);
    } else if failure_of(r, "connection"@) {
        lemma_failure_first(r, "connection"@);
    } else {
        lemma_failure_first(r, "upstream"@);
    }
    assert(r[0] == 'n' || r[0] == 'c' || r[0] == 'u');
    assert("length"@[0] == 'l');
    assert("max_tokens"@[0] == 'm');
    assert("max_output_tokens"@[0] == 'm');
    assert("model_context_window_exceeded"@[0] == 'm');
    assert("tool-calls"@[0] == 't');
    assert("tool_calls"@[0] == 't');
    assert("tool_use"@[0] == 't');
}

/// To normalise a usage report twice is to normalise it once.
pub proof fn usage_is_normal_after_once(u: JsonV)
    ensures
        usage_normal(usage_normal(u)) == usage_normal(u),
{
    broadcast use json::group_members;

    if let JsonV::Object(es) = u {
        if !has_output(u) {
            reveal_strlit("outputTokens");
            reveal_strlit("inputTokens");
            reveal_strlit("cachedInputTokens");
            assert("outputTokens"@.len() != "inputTokens"@.len());
            assert("outputTokens"@.len() != "cachedInputTokens"@.len());
            let zero = json::int_json(0);
            let a = json::put(es, "inputTokens"@, zero);
            let b = json::put(a, "cachedInputTokens"@, zero);
            let v = usage_normal(u);
            assert(v == JsonV::Object(b));
            assert(v.get("outputTokens"@) == u.get("outputTokens"@)) by {
                assert(u.with("inputTokens"@, zero).get("outputTokens"@) == u.get("outputTokens"@));
            }
            json::put_settles(es, "inputTokens"@, zero);
            json::lemma_put_same(es, "inputTokens"@, zero);
            json::put_keeps_settled(a, "inputTokens"@, zero, "cachedInputTokens"@, zero);
            json::put_settles(a, "cachedInputTokens"@, zero);
            assert(json::put(b, "inputTokens"@, zero) == b);
            assert(json::put(b, "cachedInputTokens"@, zero) == b);
        }
    }
}

/// An answer is told as cut off, or as ended by tool calls, for the reasons that say so alone, and
/// a reason is never empty.
pub proof fn reasons_are_told_apart(reason: Seq<char>)
    ensures
        ({
            let r = text::lowercase(text::trimmed(reason));
            &&& finish_reason_of(reason) == "length"@ <==> r == "length"@ || r == "max_tokens"@ || r
                == "max_output_tokens"@ || r == "model_context_window_exceeded"@
            &&& finish_reason_of(reason) == "tool_calls"@ <==> r == "tool-calls"@ || r == "tool_calls"@ || r
                == "tool_use"@
            &&& finish_reason_of(reason).len() > 0
        }),
{
    reveal_strlit("stop");
    reveal_strlit("length");
    reveal_strlit("max_tokens");
    reveal_strlit("max_output_tokens");
    reveal_strlit("model_context_window_exceeded");
    reveal_strlit("tool-calls");
    reveal_strlit("tool_calls");
    reveal_strlit("tool_use");
    reveal_strlit("upstream_error");
    assert("length"@[0] == 'l' && "length"@.len() == 6);
    assert("max_tokens"@[0] == 'm' && "max_output_tokens"@[0] == 'm');
    assert("model_context_window_exceeded"@[0] == 'm');
    assert("tool-calls"@[0] == 't' && "tool_calls"@[0] == 't' && "tool_use"@[0] == 't');
    assert("stop"@[0] == 's' && "upstream_error"@[0] == 'u' && "tool_calls"@.len() == 10);
}

proof fn lemma_trim_front_ends(s: Seq<char>)
    ensures
        ({
            let t = text::trim_front(s);
            &&& t.len() > 0 ==> !text::is_space(t[0])
            &&& text::is_ascii_text(s) ==> text::is_ascii_text(t)
        }),
    decreases s.len(),
{
    if s.len() > 0 && text::is_space(s[0]) {
        if text::is_ascii_text(s) {
            assert forall|i: int| 0 <= i < s.skip(1).len() implies ((#[trigger] s.skip(1)[i]) as u32) < 128 by {
                assert(s.skip(1)[i] == s[i + 1]);
            }
        }
        lemma_trim_front_ends(s.skip(1));
    }
}

proof fn lemma_trim_back_ends(s: Seq<char>)
    requires
        s.len() > 0 ==> !text::is_space(s[0]),
    ensures
        ({
            let t = text::trim_back(s);
            &&& t.len() > 0 ==> !text::is_space(t[0]) && !text::is_space(t.last())
            &&& text::is_ascii_text(s) ==> text::is_ascii_text(t)
        }),
    decreases s.len(),
{
    if s.len() > 0 && text::is_space(s.last()) {
        if text::is_ascii_text(s) {
            assert forall|i: int| 0 <= i < s.drop_last().len() implies ((#[trigger] s.drop_last()[i]) as u32) < 128 by {
                assert(s.drop_last()[i] == s[i]);
            }
        }
        assert(s.drop_last().len() > 0 ==> s.drop_last()[0] == s[0]);
        lemma_trim_back_ends(s.drop_last());
    }
}

/// Whether a text is ASCII without upper case, and neither begins nor ends with white space.
spec fn is_settled(s: Seq<char>) -> bool {
    &&& s.len() > 0 && !text::is_space(s[0]) && !text::is_space(s.last())
    &&& forall|i: int| 0 <= i < s.len() ==> ((#[trigger] s[i]) as u32) < 128 && !('A' <= s[i] <= 'Z')
}

proof fn lemma_settled(s: Seq<char>)
    requires
        is_settled(s),
    ensures
        text::lowercase(text::trimmed(s)) == s,
{
    assert(text::trim_front(s) == s);
    assert(text::trim_back(s) == s);
    assert(text::lowercase(s) =~= s);
}

proof fn lemma_literals_settled()
    ensures
        is_settled("stop"@),
        is_settled("length"@),
        is_settled("tool_calls"@),
        is_settled("upstream_error"@),
{
    reveal_strlit("stop");
    reveal_strlit("length");
    reveal_strlit("tool_calls");
    reveal_strlit("upstream_error");
    assert("stop"@ =~= seq!['s', 't', 'o', 'p']);
    assert("length"@ =~= seq!['l', 'e', 'n', 'g', 't', 'h']);
    assert("tool_calls"@ =~= seq!['t', 'o', 'o', 'l', '_', 'c', 'a', 'l', 'l', 's']);
    assert("upstream_error"@ =~= seq!['u', 'p', 's', 't', 'r', 'e', 'a', 'm', '_', 'e', 'r', 'r', 'o', 'r']);
}

/// The normal form of a finish reason in ASCII is its own normal form.
pub proof fn reasons_are_normal_after_once(reason: Seq<char>)
    requires
        text::is_ascii_text(reason),
    ensures
        finish_reason_of(finish_reason_of(reason)) == finish_reason_of(reason),
{
    reasons_are_told_apart(reason);
    lemma_literals_settled();
    let t = text::trimmed(reason);
    let r = text::lowercase(t);
    let n = finish_reason_of(reason);
    lemma_trim_front_ends(reason);
    lemma_trim_back_ends(text::trim_front(reason));
    assert(text::is_ascii_text(t));
    if r.len() > 0 && n == r {
        assert(r[0] == text::ascii_lower(t[0]));
        assert(r.last() == text::ascii_lower(t.last()));
        assert forall|i: int| 0 <= i < r.len() implies ((#[trigger] r[i]) as u32) < 128 && !('A' <= r[i] <= 'Z') by {
            assert(r[i] == text::ascii_lower(t[i]));
        }
        lemma_settled(r);
    } else {
        lemma_settled(n);
        reveal_strlit("stop");
        reveal_strlit("network");
        reveal_strlit("connection");
        reveal_strlit("upstream");
        reveal_strlit("error");
        reveal_strlit("upstream_error");
        reveal_strlit("tool-calls");
        reveal_strlit("tool_calls");
        reveal_strlit("tool_use");
        reveal_strlit("length");
        reveal_strlit("max_tokens");
        reveal_strlit("max_output_tokens");
        reveal_strlit("model_context_window_exceeded");
        assert("stop"@.len() == 4 && "tool-calls"@.len() == 10 && "tool_use"@.len() == 8 && "length"@.len() == 6);
        assert(n == "stop"@ || n == "tool_calls"@ || n == "length"@ || n == "upstream_error"@);
        let u = "upstream_error"@;
        assert(u.take(8) =~= "upstream"@);
        assert(u.skip(8)[0] == '_');
        assert(u.skip(8).skip(1) =~= "error"@);
        assert(failure_of(u, "upstream"@));
        if network_failure("stop"@) {
            if failure_of("stop"@, "network"@) {
                lemma_failure_first("stop"@, "network"@);
            } else if failure_of("stop"@, "connection"@) {
                lemma_failure_first("stop"@, "connection"@);
            } else {
                lemma_failure_first("stop"@, "upstream"@);
            }
            assert("stop"@[0] == 's');
        }
        if n == "upstream_error"@ {
            failed_connections_are_told_so(n);
        }
    }
}

} // verus!
