use commandcode_proxy::config::{Config, Limits, LimitsEnv};
use commandcode_proxy::fingerprint::{generate_fingerprint, DeviceProfile};
use commandcode_proxy::handlers::{
    admission, chat, cors_header_list, health_reply, internal_error_reply, messages, models_reply, models_reply_at,
    not_found_reply, responses, route, Admission, Route,
};
use commandcode_proxy::http_util::{BodyError, Reply};
use commandcode_proxy::json::{json_string, parse_json, Json};
use commandcode_proxy::state::{
    built_in_models, models_in_answer, models_of_file, unix_now, version_news, AppState, ModelInfo, ModelsSource, VersionNews,
};

const ID: &str = "01234567-89ab-4def-8123-456789abcdef";

fn parsed(s: &str) -> Json {
    parse_json(s).expect("the test's JSON is valid")
}

fn limits(max_inflight: &str) -> Limits {
    Limits::from_env(&LimitsEnv {
        max_body_mb: None,
        stream_idle_ms: None,
        nonstream_idle_ms: None,
        max_inflight: Some(max_inflight.to_string()),
        client_drain_timeout_ms: None,
        keepalive_timeout_ms: None,
    })
}

fn state_with(cfg: Config) -> AppState {
    AppState::new(cfg, limits("2"), Vec::new())
}

fn state() -> AppState {
    state_with(Config::default())
}

fn header<'a>(headers: &'a [(&'static str, String)], name: &str) -> Option<&'a str> {
    headers.iter().find(|h| h.0 == name).map(|h| h.1.as_str())
}

// ── sessions ───────────────────────────────────────────────────

const HOUR: i64 = 3_600_000;

#[test]
fn a_key_keeps_its_session_until_it_ends() {
    let mut s = state();
    assert_eq!(s.ensure_session_at("user_a", 1_000, 5, "first"), "first");
    assert_eq!(s.ensure_session_at("user_a", 1_000 + 12 * HOUR + 4, 0, "second"), "first");
    assert_eq!(s.ensure_session_at("user_b", 2_000, 0, "other"), "other");
    assert_eq!(s.ensure_session_at("user_a", 1_000 + 12 * HOUR + 5, 0, "second"), "second");
    assert_eq!(s.ensure_session_at("user_b", 3_000, 0, "x"), "other");
}

#[test]
fn a_random_session_is_a_uuid() {
    let mut s = state();
    let id = s.ensure_session("user_a");
    assert_eq!(id.len(), 36);
    assert_eq!(s.ensure_session("user_a"), id);
    assert_ne!(s.ensure_session("user_b"), id);
}

#[test]
fn a_client_can_name_its_session() {
    let mut s = state();
    let own = s.ensure_session("user_a");
    assert_eq!(s.get_session_id(Some("12345678"), Some("abcdefgh"), None, "user_a", None), "12345678");
    assert_eq!(s.get_session_id(Some("1234567"), Some("abcdefgh"), None, "user_a", None), "abcdefgh");
    assert_eq!(s.get_session_id(None, None, Some("session-3"), "user_a", Some("cache-key")), "session-3");
    assert_eq!(s.get_session_id(None, Some(""), None, "user_a", Some("cache-key")), "cache-key");
    assert_eq!(s.get_session_id(None, None, None, "user_a", Some("short")), own);
    // eight characters, whatever their length in bytes
    let accents = "\u{e9}".repeat(8);
    assert_eq!(s.get_session_id(Some(&accents), None, None, "user_a", None), accents);
}

#[test]
fn what_has_ended_is_dropped() {
    let mut s = state();
    s.ensure_session_at("user_a", 0, 0, "a");
    s.ensure_session_at("user_b", HOUR, 0, "b");
    s.init_done_at("user_a", 0, 0);
    s.get_or_create_key_state("user_a");
    s.init_done_at("user_a", 0, 0);
    assert_eq!(s.get_or_create_key_state("user_a").next_init_at, 8 * HOUR);
    assert_eq!(s.cleanup_sessions_at(12 * HOUR - 1), 0);
    assert_eq!(s.cleanup_sessions_at(12 * HOUR), 1);
    assert_eq!(s.cleanup_sessions_at(12 * HOUR), 0);
    assert_eq!(s.get_or_create_key_state("user_a").next_init_at, 0);
    assert_eq!(s.ensure_session_at("user_b", 12 * HOUR, 0, "x"), "b");
    assert_eq!(s.ensure_session_at("user_a", 12 * HOUR, 0, "x"), "x");
    assert_eq!(s.cleanup_sessions(), 2);
}

// ── devices ────────────────────────────────────────────────────

#[test]
fn sessions_and_keys_are_remembered() {
    let mut s = AppState::new(Config::default(), limits("0"), Vec::new());
    assert_eq!(s.session_of("k"), None);
    assert!(!s.knows_key("k"));
    let id = s.ensure_session("k");
    assert_eq!(s.session_of("k"), Some(id.as_str()));
    assert_eq!(s.session_of("other"), None);
    assert!(!s.knows_key("k"));
    let _ = s.get_or_create_key_state("k");
    assert!(s.knows_key("k"));
    assert!(!s.knows_key("other"));
}

#[test]
fn models_are_found_in_an_answer_that_succeeded() {
    let found = models_in_answer(200, br#"{"data":[{"id":"a"},{"name":"b"},{"id":"c"}]}"#).unwrap();
    let ids: Vec<&str> = found.iter().map(|m| m.id.as_str()).collect();
    assert_eq!(ids, vec!["a", "c"]);
    assert!(models_in_answer(200, b"{}").is_none());
    assert!(models_in_answer(500, br#"{"data":[{"id":"a"}]}"#).is_none());
}

#[test]
fn a_key_has_the_fingerprint_of_its_device() {
    let mut c = Config::default();
    c.fingerprint_salt = "pepper".to_string();
    let mut s = state_with(c);
    let want = json_string(&generate_fingerprint("pepper", "user_abc", &DeviceProfile::new("")));
    assert_eq!(json_string(&s.get_or_create_key_state("user_abc").fingerprint), want);
    assert_eq!(json_string(&s.get_or_create_key_state("user_abc").fingerprint), want);
}

#[test]
fn a_device_is_announced_now_and_then() {
    let mut s = state();
    let p = s.init_plan_at("user_abc", 10, "00ff").unwrap();
    assert_eq!(p.fingerprint.url, "https://api.commandcode.ai/alpha/fingerprint/record");
    assert_eq!(p.lifecycle.url, "https://api.commandcode.ai/alpha/lifecycle-events");
    assert_eq!(
        p.fingerprint.body,
        json_string(&generate_fingerprint("", "user_abc", &DeviceProfile::new("")))
    );
    assert_eq!(
        p.lifecycle.body,
        r#"{"eventType":"cli_session_exists","metadata":{"sessionId":"sess_00ff","cliVersion":"1.53.1","mode":"interactive","os":"win32-x64"}}"#
    );
    assert_eq!(header(&p.lifecycle.headers, "authorization"), Some("Bearer user_abc"));
    assert_eq!(header(&p.lifecycle.headers, "x-cmd-zdr"), None);
    s.init_done_at("user_abc", 10, 7);
    assert!(s.init_plan_at("user_abc", 10 + 8 * HOUR + 6, "x").is_none());
    assert!(s.init_plan_at("user_abc", 10 + 8 * HOUR + 7, "x").is_some());
    assert!(s.init_plan_at("user_other", 10, "x").is_some());
    s.init_done("user_abc");
    assert!(s.init_plan("user_abc").is_none());
    assert!(s.init_plan("user_new").is_some());
}

#[test]
fn announcements_follow_the_settings() {
    let mut c = Config::default();
    c.zdr = true;
    c.cli_session_mode = "headless".to_string();
    c.api_base = "http://up//".to_string();
    let mut s = state_with(c);
    let p = s.init_plan_at("user_abc", 10, "0").unwrap();
    assert_eq!(s.api_base(), "http://up");
    assert_eq!(p.lifecycle.url, "http://up/alpha/lifecycle-events");
    assert_eq!(header(&p.fingerprint.headers, "x-cmd-zdr"), Some("1"));
    assert!(p.lifecycle.body.contains(r#""mode":"headless""#));
}

#[test]
fn a_request_is_forwarded_in_its_session() {
    let mut s = state();
    let body = parsed(r#"{"params":{}}"#);
    let o = s.forward(&body, "user_a", None, None, None, None, None);
    let id = s.ensure_session("user_a");
    assert_eq!(header(&o.headers, "x-session-id"), Some(id.as_str()));
    assert_eq!(parsed(&o.body).get_str("threadId"), Some(id.as_str()));
    assert_eq!(header(&o.headers, "traceparent").map(|t| t.len()), Some(55));
    let o = s.forward(&body, "user_a", Some("my-session"), None, None, None, Some("1"));
    assert_eq!(header(&o.headers, "x-session-id"), Some("my-session"));
    assert_eq!(header(&o.headers, "x-cmd-zdr"), Some("1"));
    assert_eq!(o.body, r#"{"params":{}}"#);
}

// ── models ─────────────────────────────────────────────────────

fn ids(v: &[ModelInfo]) -> Vec<String> {
    v.iter().map(|m| m.id.clone()).collect()
}

#[test]
fn models_come_from_the_upstream_where_they_can() {
    let mut s = state();
    let known = s.known_models();
    assert_eq!(known, built_in_models().len());
    match s.models_source(None, 0) {
        ModelsSource::Known(v) => assert_eq!(v.len(), known),
        ModelsSource::Ask(_) => panic!("asked without a key"),
    }
    match s.models_source(Some("user_a"), 0) {
        ModelsSource::Ask(o) => {
            assert_eq!(o.url, "https://api.commandcode.ai/provider/v1/models");
            assert_eq!(o.headers.len(), 3);
            assert_eq!(header(&o.headers, "authorization"), Some("Bearer user_a"));
        }
        ModelsSource::Known(_) => panic!("not asked"),
    }
    assert_eq!(s.models_received(500, b"{\"data\":[]}", 1).len(), known);
    assert_eq!(s.models_received(200, b"{\"data\":1}", 1).len(), known);
    assert_eq!(s.models_received(200, b"{", 1).len(), known);
    let v = s.models_received(200, b"{\"data\":[{\"id\":\"a\"},{\"id\":1},{\"id\":\"b\"}]}", 1_000);
    assert_eq!(ids(&v), vec!["a", "b"]);
    let interval = s.cfg().model_refresh_interval_ms;
    match s.models_source(Some("user_a"), 1_000 + interval - 1) {
        ModelsSource::Known(v) => assert_eq!(ids(&v), vec!["a", "b"]),
        ModelsSource::Ask(_) => panic!("asked again"),
    }
    assert!(matches!(s.models_source(Some("user_a"), 1_000 + interval), ModelsSource::Ask(_)));
    assert!(matches!(s.models_source(Some("user_a"), 0), ModelsSource::Known(_)));
}

#[test]
fn the_upstream_is_not_asked_where_that_is_off() {
    let mut c = Config::default();
    c.use_provider_models = false;
    assert!(matches!(state_with(c).models_source(Some("user_a"), 0), ModelsSource::Known(_)));
}

#[test]
fn listed_models_come_first() {
    let first = models_of_file(r#"{"data":[{"id":"house/one"},{"id":"house/two"}]}"#);
    let s = AppState::new(Config::default(), limits("2"), first);
    assert_eq!(s.known_models(), 2 + built_in_models().len());
    assert_eq!(s.message_model(), "house/one");
    assert_eq!(state().message_model(), "gpt-5.5");
    for bad in ["", "[]", "{}", "{\"data\":{}}"] {
        assert!(models_of_file(bad).is_empty());
    }
}

#[test]
fn the_list_of_models_is_told() {
    let v = models_of_file(r#"{"data":[{"id":"a"},{"id":"b"}]}"#);
    let r = models_reply_at(&v, 77);
    assert_eq!(r.status, 200);
    assert_eq!(
        r.body,
        r#"{"object":"list","data":[{"id":"a","object":"model","created":77,"owned_by":"command-code"},{"id":"b","object":"model","created":77,"owned_by":"command-code"}]}"#
    );
    assert!(models_reply(&v).body.starts_with(r#"{"object":"list","data":[{"id":"a""#));
    assert!(unix_now() > 1_600_000_000);
    assert_eq!(built_in_models()[0].name, "GPT-5.5");
}

#[test]
fn news_of_the_protocol_are_read() {
    assert!(matches!(version_news(200, b"{\"version\":\"1.53.1\"}"), VersionNews::InSync));
    assert!(matches!(version_news(200, b"{\"version\":\"1.54.0\"}"), VersionNews::Drifted(v) if v == "1.54.0"));
    assert!(matches!(version_news(200, b"{\"version\":\"\"}"), VersionNews::Unknown));
    assert!(matches!(version_news(200, b"oops"), VersionNews::Unknown));
    assert!(matches!(version_news(404, b"{\"version\":\"1.54.0\"}"), VersionNews::Unknown));
}

// ── counts ─────────────────────────────────────────────────────

#[test]
fn requests_in_flight_are_limited() {
    let mut s = state();
    let a = s.inflight_acquire();
    let b = s.inflight_acquire();
    assert!(!a.rejected() && !b.rejected());
    assert_eq!(s.inflight_count(), 2);
    let c = s.inflight_acquire();
    assert!(c.rejected());
    s.inflight_release(c);
    assert_eq!(s.inflight_count(), 2);
    s.inflight_release(a);
    assert_eq!(s.inflight_count(), 1);
    assert!(!s.inflight_acquire().rejected());
}

#[test]
fn slots_are_counted_in_whatever_order_they_come_back() {
    let mut s = state();
    let mut guards = Vec::new();
    let mut out = 0;
    for (i, acquire) in [true, true, true, false, true, true, false, false, false, false, true, false].iter().enumerate() {
        if *acquire {
            let g = s.inflight_acquire();
            assert_eq!(g.rejected(), out == 2);
            if !g.rejected() {
                out += 1;
            }
            guards.push(g);
        } else {
            let g = guards.remove(i % guards.len());
            if !g.rejected() {
                out -= 1;
            }
            s.inflight_release(g);
        }
        assert_eq!(s.inflight_count(), out);
    }
    assert!(guards.is_empty());
    assert_eq!(s.inflight_count(), 0);
}

#[test]
fn without_a_limit_nothing_is_counted() {
    let mut s = AppState::new(Config::default(), limits("0"), Vec::new());
    let a = s.inflight_acquire();
    assert!(!a.rejected());
    assert_eq!(s.inflight_count(), 0);
    s.inflight_release(a);
    assert_eq!(s.inflight_count(), 0);
    assert_eq!(s.limits().max_inflight, 0);
}

#[test]
fn timeouts_in_a_row_are_counted() {
    let mut s = state();
    assert_eq!(s.bump_consecutive_timeouts(), 1);
    assert_eq!(s.bump_consecutive_timeouts(), 2);
    s.reset_consecutive_timeouts();
    assert_eq!(s.bump_consecutive_timeouts(), 1);
    assert_eq!(s.profile().platform, "win32");
}

// ── routes and admission ───────────────────────────────────────

#[test]
fn requests_are_routed() {
    assert_eq!(route("POST", "/v1/chat/completions"), Route::Chat);
    assert_eq!(route("POST", "/v1/messages"), Route::Messages);
    assert_eq!(route("POST", "/v1/responses"), Route::Responses);
    assert_eq!(route("GET", "/v1/models"), Route::Models);
    assert_eq!(route("DELETE", "/health"), Route::Health);
    assert_eq!(route("GET", "/"), Route::Health);
    assert_eq!(route("GET", "/v1/messages"), Route::NotFound);
    assert_eq!(route("POST", "/v1/models"), Route::NotFound);
    assert_eq!(route("POST", "/v1/messages/"), Route::NotFound);
    assert_eq!((health_reply().status, health_reply().body.as_str()), (200, "OK"));
    assert_eq!(not_found_reply().status, 404);
    assert_eq!(not_found_reply().body, r#"{"error":{"message":"Not found","type":"not_found"}}"#);
    assert_eq!(internal_error_reply().body, r#"{"error":{"message":"internal error","type":"internal_error"}}"#);
    assert_eq!(cors_header_list()[1].1, "GET, POST, OPTIONS");
}

#[test]
fn requests_are_admitted_up_to_the_limit() {
    let mut s = state();
    assert!(matches!(admission(&mut s, "OPTIONS", "/v1/messages"), Admission::Preflight));
    assert!(matches!(admission(&mut s, "GET", "/health"), Admission::Exempt));
    assert_eq!(s.inflight_count(), 0);
    assert!(matches!(admission(&mut s, "POST", "/v1/messages"), Admission::Admitted(_)));
    assert!(matches!(admission(&mut s, "GET", "/nowhere"), Admission::Admitted(_)));
    assert_eq!(s.inflight_count(), 2);
    match admission(&mut s, "POST", "/v1/messages") {
        Admission::Busy(r) => {
            assert_eq!(r.status, 503);
            assert_eq!(
                r.body,
                r#"{"error":{"message":"Too many concurrent requests (limit 2), retry shortly","type":"server_busy"},"retry_after":5}"#
            );
            assert_eq!(header(&r.headers, "retry-after"), Some("5"));
        }
        _ => panic!("admitted beyond the limit"),
    }
    assert!(matches!(admission(&mut s, "GET", "/"), Admission::Exempt));
}

// ── plans ──────────────────────────────────────────────────────

const KEY: Option<&str> = Some("Bearer user_k");

fn refused<T>(r: Result<T, Reply>) -> (u16, String) {
    match r {
        Ok(_) => panic!("a request was not refused"),
        Err(e) => (e.status, e.body),
    }
}

#[test]
fn bad_requests_are_refused() {
    let c = Config::default();
    let p = DeviceProfile::new("");
    assert_eq!(
        refused(chat::plan(&c, &p, Err(BodyError::TooLarge(3 * 1024 * 1024 + 5)), KEY, None)),
        (413, r#"{"error":{"message":"Request body exceeds 3MB limit","type":"invalid_request_error"}}"#.to_string())
    );
    assert_eq!(
        refused(chat::plan(&c, &p, Err(BodyError::InvalidJson), KEY, None)),
        (400, r#"{"error":{"message":"Invalid JSON body","type":"invalid_request_error"}}"#.to_string())
    );
    assert_eq!(
        refused(chat::plan(&c, &p, Ok(parsed("{}")), Some("Bearer sk-1"), None)),
        (401, r#"{"error":{"message":"Missing API key. Send in Authorization: Bearer <key> or x-api-key header","type":"auth_error"}}"#.to_string())
    );
    assert_eq!(
        refused(messages::plan(&c, &p, "d", Err(BodyError::InvalidJson), KEY, None)),
        (400, r#"{"type":"error","error":{"type":"invalid_request_error","message":"Invalid JSON body"}}"#.to_string())
    );
    assert_eq!(refused(messages::plan(&c, &p, "d", Err(BodyError::TooLarge(1)), KEY, None)).0, 413);
    assert_eq!(refused(messages::plan(&c, &p, "d", Ok(parsed("{}")), None, None)).0, 401);
    assert_eq!(
        refused(responses::plan(&c, &p, Ok(parsed(r#"{"input":[]}"#)), KEY, None)),
        (400, r#"{"error":{"message":"input is required","type":"invalid_request_error","code":null,"param":null}}"#.to_string())
    );
    assert_eq!(
        refused(responses::plan(&c, &p, Ok(parsed(r#"{"input":"x","previous_response_id":"r"}"#)), None, None)).0,
        400
    );
    assert_eq!(
        refused(responses::plan(&c, &p, Ok(parsed(r#"{"input":"x","store":true}"#)), KEY, None)),
        (400, r#"{"error":{"message":"store is not supported (this proxy is stateless); send the full input each turn","type":"invalid_request_error","code":null,"param":null}}"#.to_string())
    );
    assert!(responses::plan(&c, &p, Ok(parsed(r#"{"input":"x","store":false}"#)), KEY, None).is_ok());
    assert_eq!(refused(responses::plan(&c, &p, Ok(parsed(r#"{"input":"x"}"#)), None, None)).0, 401);
    assert_eq!(refused(responses::plan(&c, &p, Err(BodyError::TooLarge(1)), KEY, None)).0, 413);
    assert_eq!(refused(responses::plan(&c, &p, Err(BodyError::InvalidJson), KEY, None)).0, 400);
}

#[test]
fn chat_requests_are_planned() {
    let c = Config::default();
    let p = DeviceProfile::new("");
    let body = parsed(r#"{"model":"m","stream":true,"prompt_cache_key":"k","messages":[]}"#);
    let plan = match chat::plan_with(&c, &p, Ok(body), None, Some("user_k"), ID, 9, "2025-01-02") {
        Ok(plan) => plan,
        Err(_) => panic!("a good request was refused"),
    };
    assert_eq!((plan.api_key.as_str(), plan.stream, plan.model.as_str(), plan.created), ("user_k", true, "m", 9));
    assert_eq!(plan.completion_id, "chatcmpl-0123456789ab");
    assert_eq!(plan.prompt_cache_key.as_deref(), Some("k"));
    assert_eq!(plan.cc_body.get2("config", "date").and_then(|d| d.as_str()), Some("2025-01-02"));
}

#[test]
fn message_requests_are_planned() {
    let c = Config::default();
    let p = DeviceProfile::new("");
    let body = parsed(r#"{"max_tokens":5,"messages":[{"role":"user","content":"hi"}]}"#);
    let plan = match messages::plan_with(&c, &p, "house/one", Ok(body), KEY, None, "2025-01-02") {
        Ok(plan) => plan,
        Err(_) => panic!("a good request was refused"),
    };
    assert_eq!((plan.model.as_str(), plan.stream), ("house/one", false));
    assert_eq!(
        plan.cc_body.get2("params", "model").and_then(|m| m.as_str()),
        Some("deepseek/deepseek-v4-flash")
    );
    assert_eq!(plan.cc_body.get2("params", "max_tokens").and_then(|m| m.as_u64()), Some(5));
    assert!(messages::new_message_id().starts_with("msg_"));
    assert_eq!(messages::new_message_id().len(), 16);
}

#[test]
fn response_requests_are_planned() {
    let c = Config::default();
    let p = DeviceProfile::new("");
    let body = parsed(r#"{"model":"m","input":"hi","tools":null,"temperature":0.5,"reasoning":{"effort":"low"}}"#);
    let plan = match responses::plan_with(&c, &p, Ok(body), KEY, None, ID, &Vec::new(), 9, "2025-01-02") {
        Ok(plan) => plan,
        Err(_) => panic!("a good request was refused"),
    };
    assert_eq!(plan.response_id, "resp_0123456789ab4def81234567");
    assert_eq!(
        json_string(&plan.echo),
        r#"{"instructions":null,"max_output_tokens":null,"temperature":0.5,"reasoning":{"effort":"low"},"tool_choice":"auto","tools":[]}"#
    );
    assert!(responses::plan(&c, &p, Ok(parsed(r#"{"input":[{"role":"user","content":"x"}]}"#)), KEY, None).is_ok());
}

#[test]
fn upstream_failures_are_answered_in_each_form() {
    let body = r#"{"error":{"message":"slow","code":"X"}}"#;
    let r = messages::upstream_status_reply(429, body);
    assert_eq!(
        (r.status, r.body.as_str()),
        (502, r#"{"type":"error","error":{"type":"upstream_error","message":"slow"}}"#)
    );
    let r = responses::upstream_status_reply(429, body);
    assert_eq!(
        (r.status, r.body.as_str()),
        (502, r#"{"error":{"message":"slow","type":"upstream_error","code":null,"param":null},"retry_after":30}"#)
    );
    assert_eq!(
        chat::connection_reply("x").body,
        r#"{"error":{"message":"Upstream error: x","type":"proxy_error","input_tokens":0},"retry_after":10}"#
    );
    assert_eq!(messages::connection_reply("x").status, 502);
    assert_eq!(responses::connection_reply("x").status, 502);
    assert_eq!(chat::idle_reply(3).status, 429);
    assert_eq!(
        messages::idle_reply(1).body,
        r#"{"type":"error","error":{"type":"rate_limit_error","message":"Response timeout - request timed out"},"retry_after":5}"#
    );
    assert_eq!(
        responses::idle_reply(1).body,
        r#"{"error":{"message":"Response timeout - request timed out","type":"rate_limit_error","code":null,"param":null},"retry_after":5}"#
    );
}
