//! What each endpoint answers.

pub mod gather;
pub mod chat;
pub mod messages;
pub mod responses;

use vstd::prelude::*;
use crate::cc;
use crate::cc::{no_headers, push_header};
use crate::http_util;
use crate::http_util::{json_response, text_response, Reply, ReplyV};
use crate::json;
use crate::json::{no_json, push_json, Json, JsonV};
use crate::state;
use crate::state::{AppState, InflightGuard, ModelInfo};
use crate::text;
use crate::text::{cat3, decimal_u64, same};
use crate::util::now_unix;

verus! {

/// What a request asks for.
#[derive(Debug, PartialEq, Eq, Clone, Copy, Structural)]
pub enum Route {
    Chat,
    Messages,
    Responses,
    Models,
    /// Whether the proxy is alive.
    Health,
    NotFound,
}

/// Whether a path only asks if the proxy is alive. Such a request is never refused for load.
pub open spec fn is_liveness(path: Seq<char>) -> bool {
    path == "/health"@ || path == "/"@
}

/// What a request asks for. A known path with another method is not found either.
pub open spec fn route_of(method: Seq<char>, path: Seq<char>) -> Route {
    if path == "/v1/chat/completions"@ && method == "POST"@ {
        Route::Chat
    } else if path == "/v1/messages"@ && method == "POST"@ {
        Route::Messages
    } else if path == "/v1/responses"@ && method == "POST"@ {
        Route::Responses
    } else if path == "/v1/models"@ && method == "GET"@ {
        Route::Models
    } else if is_liveness(path) {
        Route::Health
    } else {
        Route::NotFound
    }
}

pub fn route(method: &str, path: &str) -> (r: Route)
    ensures
        r == route_of(method@, path@),
{
    if same(path, "/v1/chat/completions") && same(method, "POST") {
        Route::Chat
    } else if same(path, "/v1/messages") && same(method, "POST") {
        Route::Messages
    } else if same(path, "/v1/responses") && same(method, "POST") {
        Route::Responses
    } else if same(path, "/v1/models") && same(method, "GET") {
        Route::Models
    } else if same(path, "/health") || same(path, "/") {
        Route::Health
    } else {
        Route::NotFound
    }
}

pub open spec fn health() -> ReplyV {
    ReplyV {
        status: 200,
        headers: Seq::<(Seq<char>, Seq<char>)>::empty().push(("content-type"@, "text/plain"@)),
        body: "OK"@,
    }
}

/// The reply of a proxy that is alive.
pub fn health_reply() -> (r: Reply)
    ensures
        r@ == health(),
{
    text_response(200, "OK")
}

pub open spec fn plain_error(kind: Seq<char>, message: Seq<char>) -> JsonV {
    JsonV::obj().with(
        "error"@,
        JsonV::obj().with("message"@, JsonV::Str(message)).with("type"@, JsonV::Str(kind)),
    )
}

fn error_json(kind: &str, message: &str) -> (r: Json)
    ensures
        r@ == plain_error(kind@, message@),
{
    Json::obj().with("error", Json::obj().with_str("message", message).with_str("type", kind))
}

pub fn not_found_reply() -> (r: Reply)
    ensures
        r@ == http_util::json_reply(404, plain_error("not_found"@, "Not found"@)),
{
    json_response(404, &error_json("not_found", "Not found"))
}

/// The reply where a request could not be handled at all.
pub fn internal_error_reply() -> (r: Reply)
    ensures
        r@ == http_util::json_reply(500, plain_error("internal_error"@, "internal error"@)),
{
    json_response(500, &error_json("internal_error", "internal error"))
}

/// The list of models as clients are told it, at a time.
pub open spec fn models_json(models: Seq<(Seq<char>, Seq<char>)>, now: i64) -> JsonV {
    JsonV::obj().with("object"@, JsonV::Str("list"@)).with(
        "data"@,
        JsonV::Array(
            models.map_values(
                |m: (Seq<char>, Seq<char>)|
                    JsonV::obj().with("id"@, JsonV::Str(m.0)).with("object"@, JsonV::Str("model"@)).with(
                        "created"@,
                        json::int_json(now as int),
                    ).with("owned_by"@, JsonV::Str("command-code"@)),
            ),
        ),
    )
}

/// The list of models as clients are told it, at a time in seconds since 1970.
pub fn models_body(models: &Vec<ModelInfo>, now: i64) -> (r: Json)
    ensures
        r@ == models_json(state::infos(models@), now),
{
    let ghost all = state::infos(models@).map_values(
        |m: (Seq<char>, Seq<char>)|
            JsonV::obj().with("id"@, JsonV::Str(m.0)).with("object"@, JsonV::Str("model"@)).with(
                "created"@,
                json::int_json(now as int),
            ).with("owned_by"@, JsonV::Str("command-code"@)),
    );
    let mut data = no_json();
    let mut i: usize = 0;
    assert(all.take(0) =~= Seq::<JsonV>::empty());
    while i < models.len()
        invariant
            i <= models@.len(),
            all == state::infos(models@).map_values(
                |m: (Seq<char>, Seq<char>)|
                    JsonV::obj().with("id"@, JsonV::Str(m.0)).with("object"@, JsonV::Str("model"@)).with(
                        "created"@,
                        json::int_json(now as int),
                    ).with("owned_by"@, JsonV::Str("command-code"@)),
            ),
            json::models(data@) == all.take(i as int),
        decreases models.len() - i,
    {
        push_json(
            &mut data,
            Json::obj().with_str("id", models[i].id.as_str()).with_str("object", "model").with_int("created", now).with_str(
                "owned_by",
                "command-code",
            ),
        );
        i = i + 1;
        assert(all.take(i as int) =~= all.take(i - 1).push(all[i - 1]));
    }
    assert(all.take(i as int) =~= all);
    Json::obj().with_str("object", "list").with("data", Json::array(data))
}

/// The reply with the list of models, at a time in seconds since 1970.
pub fn models_reply_at(models: &Vec<ModelInfo>, now: i64) -> (r: Reply)
    ensures
        r@ == http_util::json_reply(200, models_json(state::infos(models@), now)),
{
    json_response(200, &models_body(models, now))
}

/// The reply with the list of models.
pub fn models_reply(models: &Vec<ModelInfo>) -> (r: Reply)
    ensures
        exists|now: i64|
            0 <= now && r@ == http_util::json_reply(200, #[trigger] models_json(state::infos(models@), now)),
{
    models_reply_at(models, now_unix())
}

// ── admission ──────────────────────────────────────────────────

/// The headers that let pages of any origin read a reply.
pub open spec fn cors_headers() -> Seq<(Seq<char>, Seq<char>)> {
    Seq::empty().push(("access-control-allow-origin"@, "*"@)).push(
        ("access-control-allow-methods"@, "GET, POST, OPTIONS"@),
    ).push(("access-control-allow-headers"@, "*"@))
}

pub fn cors_header_list() -> (r: Vec<(&'static str, String)>)
    ensures
        cc::headers_of(r@) == cors_headers(),
{
    let mut headers = no_headers();
    push_header(&mut headers, "access-control-allow-origin", "*".to_owned());
    push_header(&mut headers, "access-control-allow-methods", "GET, POST, OPTIONS".to_owned());
    push_header(&mut headers, "access-control-allow-headers", "*".to_owned());
    headers
}

/// What happens to a request that came.
#[derive(Debug)]
pub enum Admission {
    /// It is answered without a body: a browser asks what it may send.
    Preflight,
    /// It is handled, without a slot.
    Exempt,
    /// It is handled, and hands this back at its end.
    Admitted(InflightGuard),
    /// There are too many requests in flight.
    Busy(Reply),
}

pub open spec fn busy_json(limit: usize) -> JsonV {
    plain_error(
        "server_busy"@,
        "Too many concurrent requests (limit "@ + text::decimal(limit as nat) + "), retry shortly"@,
    ).with("retry_after"@, json::int_json(5))
}

/// Decides on a request that came. Only one that is admitted takes a slot.
pub fn admission(state: &mut AppState, method: &str, path: &str) -> (r: Admission)
    requires
        old(state).wf(),
    ensures
        final(state).wf(),
        match r {
            Admission::Preflight => method@ == "OPTIONS"@ && final(state)@ == old(state)@,
            Admission::Exempt => method@ != "OPTIONS"@ && is_liveness(path@) && final(state)@ == old(state)@,
            Admission::Admitted(g) => method@ != "OPTIONS"@ && !is_liveness(path@) && (
            old(state)@.limits.max_inflight == 0 || old(state)@.has_slot()) && g.acquired()
                == old(state)@.has_slot() && final(state)@ == old(state)@.slot_taken(),
            Admission::Busy(b) => method@ != "OPTIONS"@ && !is_liveness(path@) && 0
                < old(state)@.limits.max_inflight <= old(state)@.inflight && final(state)@ == old(state)@ && b@
                == http_util::json_reply(503, busy_json(old(state)@.limits.max_inflight)),
        },
{
    if same(method, "OPTIONS") {
        return Admission::Preflight;
    }
    if same(path, "/health") || same(path, "/") {
        return Admission::Exempt;
    }
    let guard = state.inflight_acquire();
    if guard.rejected() {
        let limit: usize = state.limits().max_inflight;
        let message = cat3(
            "Too many concurrent requests (limit ",
            decimal_u64(limit as u64).as_str(),
            "), retry shortly",
        );
        return Admission::Busy(
            json_response(503, &error_json("server_busy", message.as_str()).with_int("retry_after", 5)),
        );
    }
    Admission::Admitted(guard)
}

} // verus!
