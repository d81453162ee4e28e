//! What comes of a request is what it asks for.

use vstd::prelude::*;
use crate::cc;
use crate::config::ConfigV;
use crate::fingerprint::DeviceProfileV;
use crate::handlers;
use crate::handlers::{chat, messages, Route};
use crate::handlers::responses as response_handlers;
use crate::http_util::BodyError;
use crate::json;
use crate::json::JsonV;
use crate::laws::events as said;
use crate::laws::failures;
use crate::laws::members;
use crate::state;
use crate::state::{AppStateV, ModelsSourceV};
use crate::text;
use crate::text::Class;
use crate::translate::{anthropic_request, responses_request};
use crate::util;

verus! {

// ── keys ───────────────────────────────────────────────────────

/// Whether a text goes on a key: letters, digits, `_` and `-`, and at least one of them.
pub open spec fn is_key_rest(k: Seq<char>) -> bool {
    k.len() > 0 && forall|i: int|
        0 <= i < k.len() ==> ('a' <= #[trigger] k[i] <= 'z' || 'A' <= k[i] <= 'Z' || '0' <= k[i] <= '9' || k[i] == '_'
            || k[i] == '-')
}

proof fn lemma_run(k: Seq<char>, after: Seq<char>)
    requires
        forall|i: int| 0 <= i < k.len() ==> Class::Key.has(#[trigger] k[i]),
        after.len() > 0 ==> !Class::Key.has(after[0]),
    ensures
        text::run_length(k + after, Class::Key) == k.len(),
    decreases k.len(),
{
    if k.len() > 0 {
        assert((k + after)[0] == k[0]);
        assert((k + after).skip(1) =~= k.skip(1) + after);
        assert forall|i: int| 0 <= i < k.skip(1).len() implies Class::Key.has(#[trigger] k.skip(1)[i]) by {
            assert(k.skip(1)[i] == k[i + 1]);
        }
        lemma_run(k.skip(1), after);
    } else {
        assert(k + after =~= after);
    }
}

/// A key is found whole: that behind `Bearer ` where there is one, else that of the other header.
pub proof fn keys_are_found(k: Seq<char>, after: Seq<char>, other: Option<Seq<char>>)
    requires
        is_key_rest(k),
        after.len() > 0 ==> !Class::Key.has(after[0]),
    ensures
        util::api_key_of(Some("Bearer "@ + ("user_"@ + k + after)), other) == Some("user_"@ + k),
        util::api_key_of(None, Some("user_"@ + k + after)) == Some("user_"@ + k),
        util::api_key_of(None, None) is None,
{
    reveal_strlit("user_");
    let s = "user_"@ + k + after;
    assert forall|i: int| 0 <= i < k.len() implies Class::Key.has(#[trigger] k[i]) by {}
    lemma_run(k, after);
    assert(s.skip(5) =~= k + after);
    assert(s.take(5) =~= "user_"@);
    assert(s.take(5int + k.len()) =~= "user_"@ + k);
    let b = "Bearer "@ + s;
    assert(b.take("Bearer "@.len() as int) =~= "Bearer "@);
    assert(b.skip("Bearer "@.len() as int) =~= s);
}

// ── plans ──────────────────────────────────────────────────────

/// A chat request with a key is sent with that key, for the model that it names, as a stream where
/// it asks for one, and as its own translation.
pub proof fn chat_requests_are_planned(
    cfg: ConfigV,
    profile: DeviceProfileV,
    req: JsonV,
    key: Seq<char>,
    uuid: Seq<char>,
    now: i64,
    date: Seq<char>,
)
    ensures
        chat::plan_of(cfg, profile, Ok(req), Some(key), uuid, now, date) matches Ok(p) && {
            &&& p.api_key == key
            &&& p.stream == (req.get("stream"@) == Some(JsonV::Bool(true)))
            &&& req.get("model"@) matches Some(JsonV::Str(m)) ==> m.len() > 0 ==> p.model == m
            &&& p.created == now
            &&& p.completion_id == "chatcmpl-"@ + util::short_id_text(uuid, 12)
            &&& p.cc_body == cc::cc_request(cfg, profile, req, date)
            &&& req.get("prompt_cache_key"@) matches Some(JsonV::Str(c)) ==> c.len() > 0 ==> p.prompt_cache_key == Some(
                c,
            )
            &&& !(req.get("prompt_cache_key"@) matches Some(JsonV::Str(_))) ==> p.prompt_cache_key is None
        },
{
}

/// So is a message request, and it is sent as the chat request that it stands for.
pub proof fn message_requests_are_planned(
    cfg: ConfigV,
    profile: DeviceProfileV,
    default_model: Seq<char>,
    req: JsonV,
    key: Seq<char>,
    date: Seq<char>,
)
    ensures
        messages::plan_of(cfg, profile, default_model, Ok(req), Some(key), date) matches Ok(p) && {
            &&& p.api_key == key
            &&& p.stream == (req.get("stream"@) == Some(JsonV::Bool(true)))
            &&& req.get("model"@) matches Some(JsonV::Str(m)) ==> m.len() > 0 ==> p.model == m
            &&& !(req.get("model"@) matches Some(JsonV::Str(_))) ==> p.model == default_model
            &&& p.cc_body == cc::cc_request(cfg, profile, anthropic_request::chat_request(req), date)
        },
{
}

/// So is a request for a response with some input; one that counts on what is not kept is refused.
pub proof fn response_requests_are_planned(
    cfg: ConfigV,
    profile: DeviceProfileV,
    req: JsonV,
    key: Seq<char>,
    uuid: Seq<char>,
    uuids: Seq<Seq<char>>,
    now: i64,
    date: Seq<char>,
)
    ensures
        ({
            let r = response_handlers::plan_of(cfg, profile, Ok(req), Some(key), uuid, uuids, now, date);
            let c = responses_request::chat_request(req, uuids);
            let earlier = req.get("previous_response_id"@) matches Some(v) && said::counts(v);
            let stored = req.get("store"@) matches Some(v) && said::counts(v);
            let blank = members::list_in(c, "messages"@).len() == 0;
            &&& !earlier && !stored && !blank ==> (r matches Ok(p) && {
                &&& p.api_key == key
                &&& p.stream == (c.get("stream"@) == Some(JsonV::Bool(true)))
                &&& c.get("model"@) matches Some(JsonV::Str(m)) ==> m.len() > 0 ==> p.model == m
                &&& p.created == now
                &&& p.cc_body == cc::cc_request(cfg, profile, c, date)
                &&& p.echo == response_handlers::echo_of(req)
                &&& p.response_id == crate::translate::responses::id_of("resp_"@, uuid)
                &&& c.get("prompt_cache_key"@) matches Some(JsonV::Str(k)) ==> k.len() > 0 ==> p.prompt_cache_key
                    == Some(k)
            })
            &&& earlier || stored || blank ==> (r matches Err(e) && e.status == 400)
        }),
{
    if let Some(v) = req.get("previous_response_id"@) {
        said::what_counts_is_true(v);
    }
    if let Some(v) = req.get("store"@) {
        said::what_counts_is_true(v);
    }
}

/// A body that cannot be read is refused, and so is a request without a key.
pub proof fn other_requests_are_refused(
    cfg: ConfigV,
    profile: DeviceProfileV,
    req: JsonV,
    limit: usize,
    key: Option<Seq<char>>,
    model: Seq<char>,
    uuid: Seq<char>,
    uuids: Seq<Seq<char>>,
    now: i64,
    date: Seq<char>,
)
    ensures
        ({
            let large = Err::<JsonV, BodyError>(BodyError::TooLarge(limit));
            let broken = Err::<JsonV, BodyError>(BodyError::InvalidJson);
            &&& chat::plan_of(cfg, profile, large, key, uuid, now, date) matches Err(e) && e.status == 413
            &&& chat::plan_of(cfg, profile, broken, key, uuid, now, date) matches Err(e) && failures::reply_tells(
                e,
                400,
                "Invalid JSON body"@,
                "invalid_request_error"@,
            )
            &&& chat::plan_of(cfg, profile, Ok(req), None, uuid, now, date) matches Err(e) && e.status == 401
            &&& messages::plan_of(cfg, profile, model, large, key, date) matches Err(e) && e.status == 413
            &&& messages::plan_of(cfg, profile, model, broken, key, date) matches Err(e) && failures::reply_tells(
                e,
                400,
                "Invalid JSON body"@,
                "invalid_request_error"@,
            )
            &&& messages::plan_of(cfg, profile, model, Ok(req), None, date) matches Err(e) && e.status == 401
            &&& response_handlers::plan_of(cfg, profile, large, key, uuid, uuids, now, date) matches Err(e) && e.status
                == 413
            &&& response_handlers::plan_of(cfg, profile, broken, key, uuid, uuids, now, date) matches Err(e)
                && failures::reply_tells(e, 400, "Invalid JSON body"@, "invalid_request_error"@)
            &&& response_handlers::plan_of(cfg, profile, Ok(req), None, uuid, uuids, now, date) matches Err(e) && (
            e.status == 401 || e.status == 400)
        }),
{
    failures::error_replies_are_told(400, "invalid_request_error"@, "Invalid JSON body"@, None);
    let j = chat::plain_error("Invalid JSON body"@, "invalid_request_error"@);
    assert(failures::tells(j, "Invalid JSON body"@, "invalid_request_error"@));
}

// ── routes and models ──────────────────────────────────────────

/// Each endpoint is reached by its path and its method.
pub proof fn endpoints_are_reached()
    ensures
        handlers::route_of("POST"@, "/v1/chat/completions"@) == Route::Chat,
        handlers::route_of("POST"@, "/v1/messages"@) == Route::Messages,
        handlers::route_of("POST"@, "/v1/responses"@) == Route::Responses,
        handlers::route_of("GET"@, "/v1/models"@) == Route::Models,
        forall|m: Seq<char>| #[trigger] handlers::route_of(m, "/health"@) == Route::Health,
        forall|m: Seq<char>| #[trigger] handlers::route_of(m, "/"@) == Route::Health,
        forall|m: Seq<char>|
            m != "POST"@ ==> #[trigger] handlers::route_of(m, "/v1/chat/completions"@) == Route::NotFound,
{
    reveal_strlit("/v1/chat/completions");
    reveal_strlit("/v1/messages");
    reveal_strlit("/v1/responses");
    reveal_strlit("/v1/models");
    reveal_strlit("/health");
    reveal_strlit("/");
    assert("/v1/chat/completions"@.len() == 20 && "/v1/messages"@.len() == 12 && "/v1/responses"@.len() == 13);
    assert("/v1/models"@.len() == 10 && "/health"@.len() == 7 && "/"@.len() == 1);
}

/// Every model is listed, in its order, by its identifier.
pub proof fn models_are_listed(models: Seq<(Seq<char>, Seq<char>)>, now: i64)
    ensures
        ({
            let l = members::list_in(handlers::models_json(models, now), "data"@);
            &&& handlers::models_json(models, now).get("object"@) == Some(JsonV::Str("list"@))
            &&& l.len() == models.len()
            &&& forall|i: int| 0 <= i < models.len() ==> (#[trigger] l[i]).get("id"@) == Some(JsonV::Str(models[i].0))
            &&& forall|i: int| 0 <= i < models.len() ==> (#[trigger] l[i]).get("object"@) == Some(JsonV::Str("model"@))
        }),
{
    broadcast use members::group_reading;

    reveal_strlit("object");
    reveal_strlit("data");
    reveal_strlit("id");
    reveal_strlit("created");
    reveal_strlit("owned_by");
    assert("object"@.len() == 6 && "data"@.len() == 4 && "id"@.len() == 2 && "created"@.len() == 7);
    assert("owned_by"@.len() == 8);
    let l = members::list_in(handlers::models_json(models, now), "data"@);
    assert(l.len() == models.len());
    assert forall|i: int| 0 <= i < models.len() implies (#[trigger] l[i]).get("id"@) == Some(JsonV::Str(models[i].0))
        && l[i].get("object"@) == Some(JsonV::Str("model"@)) by {
        let a = JsonV::obj().with("id"@, JsonV::Str(models[i].0)).with("object"@, JsonV::Str("model"@));
        assert(a is Object && a.get("id"@) == Some(JsonV::Str(models[i].0)) && a.get("object"@) == Some(
            JsonV::Str("model"@),
        ));
        let b = a.with("created"@, json::int_json(now as int));
        assert(b is Object && b.get("id"@) == a.get("id"@) && b.get("object"@) == a.get("object"@));
        assert(l[i] == b.with("owned_by"@, JsonV::Str("command-code"@)));
    }
}

/// The models that the upstream lists are known by their identifiers, in its order.
pub proof fn upstream_models_are_read(data: Seq<JsonV>, ids: Seq<Seq<char>>)
    requires
        data.len() == ids.len(),
        forall|i: int| 0 <= i < data.len() ==> (#[trigger] data[i]).get("id"@) == Some(JsonV::Str(ids[i])),
    ensures
        ({
            let m = state::listed_models(data);
            &&& m.len() == ids.len()
            &&& forall|i: int| 0 <= i < ids.len() ==> (#[trigger] m[i]).0 == ids[i]
        }),
    decreases data.len(),
{
    if data.len() > 0 {
        let d = data.drop_last();
        let k = ids.drop_last();
        assert forall|i: int| 0 <= i < d.len() implies (#[trigger] d[i]).get("id"@) == Some(JsonV::Str(k[i])) by {
            assert(d[i] == data[i]);
        }
        upstream_models_are_read(d, k);
        assert(data.last() == data[data.len() - 1]);
        let m = state::listed_models(data);
        let before = state::listed_models(d);
        assert(m == before.push((ids.last(), ids.last())));
        assert forall|i: int| 0 <= i < ids.len() implies (#[trigger] m[i]).0 == ids[i] by {
            if i < before.len() {
                assert(m[i] == before[i]);
            }
        }
    }
}

/// The upstream is asked for its models with the key of the client, where that is wanted and they
/// are not known; without a key those that are built in are listed.
pub proof fn models_come_from_the_upstream(s: AppStateV, key: Seq<char>, now: u64)
    requires
        s.models is None,
    ensures
        s.cfg.use_provider_models ==> (s.models_source(Some(key), now) matches ModelsSourceV::Ask(o)
            && o.headers.contains(("authorization"@, "Bearer "@ + key))),
        !s.cfg.use_provider_models ==> s.models_source(Some(key), now) == ModelsSourceV::Known(s.known),
        s.models_source(None, now) == ModelsSourceV::Known(s.known),
{
    let h = state::models_request(s.cfg, key).headers;
    assert(h[0] == ("authorization"@, "Bearer "@ + key));
}

/// A device is announced with the key that it belongs to and with its own fingerprint.
pub proof fn devices_are_announced(cfg: ConfigV, key: Seq<char>, fp: JsonV, session_hex: Seq<char>)
    ensures
        ({
            let a = state::fingerprint_request(cfg, key, fp);
            let b = state::lifecycle_request(cfg, key, fp, session_hex);
            &&& a.body == json::json_text(fp)
            &&& a.headers.contains(("authorization"@, "Bearer "@ + key))
            &&& b.headers.contains(("authorization"@, "Bearer "@ + key))
            &&& cfg.zdr ==> a.headers.contains(("x-cmd-zdr"@, "1"@)) && b.headers.contains(("x-cmd-zdr"@, "1"@))
            &&& exists|j: JsonV|
                b.body == json::json_text(j) && #[trigger] members::inner(j, "metadata"@, "sessionId"@) == Some(
                    JsonV::Str("sess_"@ + session_hex),
                ) && j.get("eventType"@) == Some(JsonV::Str("cli_session_exists"@))
        }),
{
    broadcast use members::group_reading;

    let h = state::init_headers(cfg, key);
    assert(h[2] == ("authorization"@, "Bearer "@ + key));
    if cfg.zdr {
        assert(h[4] == ("x-cmd-zdr"@, "1"@));
    }
    reveal_strlit("eventType");
    reveal_strlit("metadata");
    assert("eventType"@.len() == 9 && "metadata"@.len() == 8);
    reveal_strlit("sessionId");
    reveal_strlit("cliVersion");
    reveal_strlit("mode");
    reveal_strlit("os");
    assert("sessionId"@.len() == 9 && "cliVersion"@.len() == 10 && "mode"@.len() == 4 && "os"@.len() == 2);
    let j = state::lifecycle_json(cfg, fp, session_hex);
    let m0 = JsonV::obj().with("sessionId"@, JsonV::Str("sess_"@ + session_hex)).with(
        "cliVersion"@,
        JsonV::Str(crate::cc::CC_PROTOCOL_VERSION@),
    );
    assert(m0 is Object && m0.get("sessionId"@) == Some(JsonV::Str("sess_"@ + session_hex)));
    assert(members::inner(j, "metadata"@, "sessionId"@) == Some(JsonV::Str("sess_"@ + session_hex)));
}

} // verus!
