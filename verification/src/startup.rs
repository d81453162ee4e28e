//! What is checked and noted when the proxy starts.

use vstd::prelude::*;
use crate::cc::CC_PROTOCOL_VERSION;
use crate::config;
use crate::config::{parse_proxy_url, path_display, redact_proxy_url, Config, ConfigV, Limits};
use crate::json;
use crate::json::{Json, JsonV};
use crate::logging;
use crate::logging::{push_entry, LogEntry, LogEntryV};
use crate::text;
use crate::text::{cat, cat4, cat5, decimal_u64};

verus! {

/// What the start does about the upstream proxy.
#[derive(Debug)]
pub enum ProxyCheck {
    /// None is set.
    Direct,
    /// One is set; this is noted.
    Proxied(LogEntry),
    /// What is set cannot be used; this is noted, and the proxy does not start.
    Refused(LogEntry),
}

/// Checks the upstream proxy of the settings, so that a mistake in it stops the start and not
/// each request.
pub fn check_proxy(cfg: &Config) -> (r: ProxyCheck)
    ensures
        match r {
            ProxyCheck::Direct => cfg@.upstream_proxy.len() == 0,
            ProxyCheck::Proxied(e) => cfg@.upstream_proxy.len() > 0 && config::proxy_of(cfg@.upstream_proxy) is Ok
                && e@ == (LogEntryV {
                level: "info"@,
                message: "Upstream requests will go through the configured proxy"@,
                data: Some(JsonV::obj().with("proxy"@, JsonV::Str(config::redacted(cfg@.upstream_proxy)))),
            }),
            ProxyCheck::Refused(e) => cfg@.upstream_proxy.len() > 0 && (config::proxy_of(cfg@.upstream_proxy) matches Err(
                why,
            ) && e@ == (LogEntryV {
                level: "error"@,
                message: "Invalid upstreamProxy, refusing to start"@,
                data: Some(
                    JsonV::obj().with("error"@, JsonV::Str(why)).with(
                        "value"@,
                        JsonV::Str(config::redacted(cfg@.upstream_proxy)),
                    ),
                ),
            })),
        },
{
    let proxy = cfg.upstream_proxy.as_str();
    if proxy.is_empty() {
        return ProxyCheck::Direct;
    }
    let shown = redact_proxy_url(proxy);
    match parse_proxy_url(proxy) {
        Ok(_) => ProxyCheck::Proxied(
            LogEntry {
                level: "info",
                message: "Upstream requests will go through the configured proxy",
                data: Some(Json::obj().with_str("proxy", shown.as_str())),
            },
        ),
        Err(e) => ProxyCheck::Refused(
            LogEntry {
                level: "error",
                message: "Invalid upstreamProxy, refusing to start",
                data: Some(Json::obj().with_str("error", e.as_str()).with_str("value", shown.as_str())),
            },
        ),
    }
}

pub open spec fn zdr_note(on: bool) -> Seq<char> {
    if on {
        "enabled (x-cmd-zdr: 1 on generation/init requests)"@
    } else {
        "off (CMD_ZDR=1 or per-request x-cmd-zdr: 1 to enable)"@
    }
}

pub open spec fn placeholder_note(on: bool) -> Seq<char> {
    if on {
        "on (space placeholder for requests without system prompt)"@
    } else {
        "off"@
    }
}

pub open spec fn inflight_note(limit: usize) -> Seq<char> {
    if limit > 0 {
        text::decimal(limit as nat) + " (global, /health exempt)"@
    } else {
        "unlimited (CC_MAX_INFLIGHT=0)"@
    }
}

/// The settings as the first entry of the log tells them.
pub open spec fn banner(cfg: ConfigV, limits: Limits, file: Seq<char>, models: nat) -> JsonV {
    JsonV::obj().with(
        "url"@,
        JsonV::Str("http://"@ + cfg.host + ":"@ + text::decimal(cfg.port as nat)),
    ).with("api"@, JsonV::Str(cfg.api_base)).with(
        "models"@,
        json::int_json(models as int),
    ).with("protocolVersion"@, JsonV::Str(CC_PROTOCOL_VERSION@)).with("configFile"@, JsonV::Str(file)).with(
        "session"@,
        JsonV::Str("12h + 1h jitter, per API key"@),
    ).with("zdr"@, JsonV::Str(zdr_note(cfg.zdr))).with(
        "emptySystemPlaceholder"@,
        JsonV::Str(placeholder_note(cfg.empty_system_placeholder)),
    ).with(
        "logFile"@,
        JsonV::Str(
            if cfg.log_file.len() == 0 {
                "(console only)"@
            } else {
                cfg.log_file
            },
        ),
    ).with(
        "keepAliveTimeout"@,
        JsonV::Str(
            text::decimal(limits.keepalive_timeout_ms as nat) + "ms (反代侧 keepalive_timeout 必须小于它)"@,
        ),
    ).with(
        "idleTimeouts"@,
        JsonV::Str(
            "stream "@ + text::decimal(limits.stream_idle_timeout_ms as nat) + "ms / nonstream "@ + text::decimal(
                limits.nonstream_idle_timeout_ms as nat,
            ) + "ms"@,
        ),
    ).with("maxInflight"@, JsonV::Str(inflight_note(limits.max_inflight))).with(
        "maxBodyMB"@,
        json::int_json(limits.max_body_size as int / 1_048_576),
    ).with("upstreamProxy"@, JsonV::Str(config::redacted(cfg.upstream_proxy)))
}

/// Five and a half times a size, rounded: what a request with a body of that size may take.
pub open spec fn worst_case_mb(body_mb: int) -> int {
    (11 * body_mb + 1) / 2
}

/// The entries of the log at the start.
pub open spec fn startup_log(cfg: ConfigV, limits: Limits, file: Seq<char>, models: nat) -> Seq<LogEntryV> {
    let started = Seq::<LogEntryV>::empty().push(
        LogEntryV { level: "info"@, message: "CC Proxy started"@, data: Some(banner(cfg, limits, file, models)) },
    );
    let drained = if limits.client_drain_timeout_ms > 0 {
        started.push(
            LogEntryV {
                level: "info"@,
                message: "Client drain timeout enabled"@,
                data: Some(
                    JsonV::obj().with("timeoutMs"@, json::int_json(limits.client_drain_timeout_ms as int)),
                ),
            },
        )
    } else {
        started
    };
    let body_mb = limits.max_body_size as int / 1_048_576;
    let sized = if worst_case_mb(body_mb) >= 500 {
        drained.push(
            LogEntryV {
                level: "warn"@,
                message: "Request body limit implies high per-request worst-case memory"@,
                data: Some(
                    JsonV::obj().with("maxBodyMB"@, json::int_json(body_mb)).with(
                        "worstCaseRSSPerRequestMB"@,
                        json::int_json(worst_case_mb(body_mb)),
                    ).with(
                        "hint"@,
                        JsonV::Str(
                            "lower CC_MAX_BODY_MB, set CC_MAX_INFLIGHT, and/or cap in-flight requests at the reverse proxy"@,
                        ),
                    ),
                ),
            },
        )
    } else {
        drained
    };
    if cfg.api_key.len() == 0 {
        sized.push(
            LogEntryV {
                level: "info"@,
                message: "No API key in config. API key must be sent in Authorization: Bearer <key> header per request."@,
                data: None,
            },
        )
    } else {
        sized
    }
}

fn banner_json(cfg: &Config, limits: &Limits, file: &str, models: usize) -> (r: Json)
    ensures
        r@ == banner(cfg@, *limits, file@, models as nat),
{
    let url = cat4("http://", cfg.host.as_str(), ":", decimal_u64(cfg.port as u64).as_str());
    let zdr = if cfg.zdr {
        "enabled (x-cmd-zdr: 1 on generation/init requests)"
    } else {
        "off (CMD_ZDR=1 or per-request x-cmd-zdr: 1 to enable)"
    };
    let placeholder = if cfg.empty_system_placeholder {
        "on (space placeholder for requests without system prompt)"
    } else {
        "off"
    };
    let log_file = if cfg.log_file.as_str().is_empty() {
        "(console only)"
    } else {
        cfg.log_file.as_str()
    };
    let keepalive = cat(
        decimal_u64(limits.keepalive_timeout_ms).as_str(),
        "ms (反代侧 keepalive_timeout 必须小于它)",
    );
    let idle = cat5(
        "stream ",
        decimal_u64(limits.stream_idle_timeout_ms).as_str(),
        "ms / nonstream ",
        decimal_u64(limits.nonstream_idle_timeout_ms).as_str(),
        "ms",
    );
    let inflight = if limits.max_inflight > 0 {
        cat(decimal_u64(limits.max_inflight as u64).as_str(), " (global, /health exempt)")
    } else {
        "unlimited (CC_MAX_INFLIGHT=0)".to_owned()
    };
    Json::obj().with_str("url", url.as_str()).with_str("api", cfg.api_base.as_str()).with(
        "models",
        Json::of_uint(models as u64),
    ).with_str("protocolVersion", CC_PROTOCOL_VERSION).with_str("configFile", file).with_str(
        "session",
        "12h + 1h jitter, per API key",
    ).with_str("zdr", zdr).with_str("emptySystemPlaceholder", placeholder).with_str("logFile", log_file).with_str(
        "keepAliveTimeout",
        keepalive.as_str(),
    ).with_str("idleTimeouts", idle.as_str()).with_str("maxInflight", inflight.as_str()).with(
        "maxBodyMB",
        Json::of_uint((limits.max_body_size / 1_048_576) as u64),
    ).with_str("upstreamProxy", redact_proxy_url(cfg.upstream_proxy.as_str()).as_str())
}

/// The entries of the log at the start. `file` is the path of the configuration file, where one
/// was used; `models` is how many models are known.
pub fn startup_entries(cfg: &Config, limits: &Limits, file: Option<&str>, models: usize) -> (r: Vec<LogEntry>)
    ensures
        logging::entries(r@) == startup_log(
            cfg@,
            *limits,
            match file {
                Some(s) => s@,
                None => "(built-in defaults)"@,
            },
            models as nat,
        ),
{
    let shown = path_display(file);
    let mut r: Vec<LogEntry> = Vec::new();
    assert(logging::entries(r@) =~= Seq::<LogEntryV>::empty());
    push_entry(&mut r, "info", "CC Proxy started", Some(banner_json(cfg, limits, shown.as_str(), models)));
    if limits.client_drain_timeout_ms > 0 {
        push_entry(
            &mut r,
            "info",
            "Client drain timeout enabled",
            Some(Json::obj().with("timeoutMs", Json::of_uint(limits.client_drain_timeout_ms))),
        );
    }
    let body_mb: u64 = (limits.max_body_size / 1_048_576) as u64;
    let worst: u64 = (11 * body_mb + 1) / 2;
    if worst >= 500 {
        push_entry(
            &mut r,
            "warn",
            "Request body limit implies high per-request worst-case memory",
            Some(
                Json::obj().with("maxBodyMB", Json::of_uint(body_mb)).with(
                    "worstCaseRSSPerRequestMB",
                    Json::of_uint(worst),
                ).with_str(
                    "hint",
                    "lower CC_MAX_BODY_MB, set CC_MAX_INFLIGHT, and/or cap in-flight requests at the reverse proxy",
                ),
            ),
        );
    }
    if cfg.api_key.as_str().is_empty() {
        push_entry(
            &mut r,
            "info",
            "No API key in config. API key must be sent in Authorization: Bearer <key> header per request.",
            None,
        );
    }
    r
}

} // verus!
