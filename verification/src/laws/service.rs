//! What the proxy says of itself and of its clients.

use vstd::prelude::*;
use crate::config;
use crate::config::{ConfigV, Limits};
use crate::fingerprint;
use crate::fingerprint::DeviceProfileV;
use crate::handlers;
use crate::http_util;
use crate::http_util::FinalErrorV;
use crate::json;
use crate::json::JsonV;
use crate::laws::events as said;
use crate::laws::failures;
use crate::laws::members;
use crate::logging;
use crate::startup;
use crate::state;
use crate::text;
use crate::util;

verus! {

// ── requests ───────────────────────────────────────────────────

/// A body within its limit is read whole, however it came in pieces; one beyond it is refused.
pub proof fn bodies_are_read_whole(limit: usize, pieces: Seq<Seq<u8>>)
    ensures
        ({
            let all = http_util::joined_pieces(pieces);
            let r = http_util::body_after(limit as nat, pieces).outcome();
            &&& all.len() > limit ==> r == Err::<JsonV, http_util::BodyError>(http_util::BodyError::TooLarge(limit))
            &&& all.len() <= limit && json::json_parsed_bytes(all) is None ==> r == Err::<
                JsonV,
                http_util::BodyError,
            >(http_util::BodyError::InvalidJson)
            &&& all.len() <= limit ==> (json::json_parsed_bytes(all) matches Some(j) ==> r == Ok::<
                JsonV,
                http_util::BodyError,
            >(j))
        }),
{
    http_util::body_limit_is_exact(limit as nat, pieces);
}

/// A request beyond what may be in flight is told the limit, and when to come back.
pub proof fn busy_clients_are_told(limit: usize)
    ensures
        failures::tells(
            handlers::busy_json(limit),
            "Too many concurrent requests (limit "@ + text::decimal(limit as nat) + "), retry shortly"@,
            "server_busy"@,
        ),
        handlers::busy_json(limit).get("retry_after"@) == Some(json::int_json(5)),
{
    broadcast use members::group_reading;

    reveal_strlit("type");
    reveal_strlit("message");
    reveal_strlit("error");
    reveal_strlit("retry_after");
    assert("type"@.len() == 4 && "message"@.len() == 7 && "error"@.len() == 5 && "retry_after"@.len() == 11);
    let m = "Too many concurrent requests (limit "@ + text::decimal(limit as nat) + "), retry shortly"@;
    let a = JsonV::obj().with("message"@, JsonV::Str(m)).with("type"@, JsonV::Str("server_busy"@));
    assert(a is Object && a.get("message"@) == Some(JsonV::Str(m)) && a.get("type"@) == Some(
        JsonV::Str("server_busy"@),
    ));
    assert(JsonV::obj().with("error"@, a).get("error"@) == Some(a));
}

/// A stream that failed before it began is answered with its failure, one without anything with a
/// failure of the proxy.
pub proof fn streams_that_never_began_are_answered(f: FinalErrorV)
    ensures
        http_util::opening_reply(Some(f)).status == f.status,
        http_util::opening_reply(Some(f)).body == json::json_text(f.body),
        failures::reply_tells(
            http_util::opening_reply(None),
            502,
            "Upstream error: empty response stream"@,
            "proxy_error"@,
        ),
{
    broadcast use members::group_reading;

    reveal_strlit("type");
    reveal_strlit("message");
    reveal_strlit("error");
    assert("type"@.len() == 4 && "message"@.len() == 7 && "error"@.len() == 5);
    let m = "Upstream error: empty response stream"@;
    let a = JsonV::obj().with("message"@, JsonV::Str(m)).with("type"@, JsonV::Str("proxy_error"@));
    assert(a is Object && a.get("message"@) == Some(JsonV::Str(m)) && a.get("type"@) == Some(
        JsonV::Str("proxy_error"@),
    ));
    let j = JsonV::obj().with("error"@, a);
    assert(failures::tells(j, m, "proxy_error"@));
}

/// Pages of any origin may read replies, and a stream is told as one.
pub proof fn headers_are_as_clients_need_them()
    ensures
        handlers::cors_headers().contains(("access-control-allow-origin"@, "*"@)),
        handlers::cors_headers().contains(("access-control-allow-headers"@, "*"@)),
        http_util::sse_headers().contains(("content-type"@, "text/event-stream"@)),
        http_util::sse_headers().contains(("cache-control"@, "no-cache"@)),
{
    let c = handlers::cors_headers();
    assert(c[0] == ("access-control-allow-origin"@, "*"@) && c[2] == ("access-control-allow-headers"@, "*"@));
    let s = http_util::sse_headers();
    assert(s[0] == ("content-type"@, "text/event-stream"@) && s[1] == ("cache-control"@, "no-cache"@));
}

/// A client that takes nothing is given up behind the time that is set, and never where none is.
pub proof fn silent_clients_are_given_up(l: Limits, blocked_ms: u64)
    ensures
        l.client_drain_timeout_ms == 0 ==> !l.gives_up_after(blocked_ms),
        l.client_drain_timeout_ms > 0 && blocked_ms > l.client_drain_timeout_ms ==> l.gives_up_after(blocked_ms),
        blocked_ms <= l.client_drain_timeout_ms ==> !l.gives_up_after(blocked_ms),
{
}

// ── sessions, models and versions ──────────────────────────────

/// The session is the first that a client names with eight characters or more.
pub proof fn named_sessions_are_kept(
    a: Option<Seq<char>>,
    b: Option<Seq<char>>,
    c: Option<Seq<char>>,
    d: Option<Seq<char>>,
    s: Seq<char>,
)
    ensures
        ({
            let short = |o: Option<Seq<char>>| o matches Some(x) ==> x.len() < 8;
            &&& s.len() >= 8 && a == Some(s) ==> state::named_session(a, b, c, d) == Some(s)
            &&& s.len() >= 8 && short(a) && b == Some(s) ==> state::named_session(a, b, c, d) == Some(s)
            &&& s.len() >= 8 && short(a) && short(b) && c == Some(s) ==> state::named_session(a, b, c, d) == Some(s)
            &&& s.len() >= 8 && short(a) && short(b) && short(c) && d == Some(s) ==> state::named_session(a, b, c, d)
                == Some(s)
            &&& short(a) && short(b) && short(c) && short(d) ==> state::named_session(a, b, c, d) is None
        }),
{
}

/// The models of an answer that succeeded with a list are those of the list; another answer names
/// none.
pub proof fn model_lists_are_read(status: u16, body: Seq<u8>, data: Seq<JsonV>, j: JsonV)
    ensures
        200 <= status < 300 && json::json_parsed_bytes(body) == Some(j) && j.get("data"@) == Some(JsonV::Array(data))
            ==> state::models_answer(status, body) == Some(state::listed_models(data)),
        !(200 <= status < 300) ==> state::models_answer(status, body) is None && state::latest_version(status, body)
            is None,
        json::json_parsed_bytes(body) is None ==> state::models_answer(status, body) is None,
        200 <= status < 300 && json::json_parsed_bytes(body) == Some(j) ==> (j.get("version"@) matches Some(
            JsonV::Str(v),
        ) ==> v.len() > 0 ==> state::latest_version(status, body) == Some(v)),
{
}

// ── the log ────────────────────────────────────────────────────

/// A line of the log holds the time, the level, the message and the data.
pub proof fn log_lines_hold_their_entry(ts: Seq<char>, level: Seq<char>, msg: Seq<char>, data: JsonV)
    ensures
        logging::log_line(ts, level, msg, None) == "["@ + ts + "] ["@ + level + "] "@ + msg,
        logging::log_line(ts, level, msg, Some(data)) == logging::log_line(ts, level, msg, None) + " "@
            + json::json_text(data),
{
}

/// Why a client is thought to have gone away.
pub proof fn disconnects_have_their_reason(last: Seq<char>)
    ensures
        text::has_prefix(last, "tool-input"@) ==> http_util::disconnect_reason(last) == "tool-input-silent-timeout"@,
        !text::has_prefix(last, "tool-input"@) && text::holds_text(last, "delta"@) ==> http_util::disconnect_reason(
            last,
        ) == "streaming-active-disconnect"@,
        !text::has_prefix(last, "tool-input"@) && !text::holds_text(last, "delta"@) ==> http_util::disconnect_reason(
            last,
        ) == "client-hangup"@,
        http_util::event_name(Seq::empty()) == "(none)"@,
        last.len() > 0 ==> http_util::event_name(last) == last,
{
}

/// The entry for a client that went away says what it asked for, how far it came and why it is
/// thought to have gone.
pub proof fn disconnects_are_noted(
    path: Seq<char>,
    id: Seq<char>,
    model: Seq<char>,
    streaming: bool,
    elapsed_ms: u64,
    bytes: usize,
    last: Seq<char>,
)
    requires
        last.len() > 0,
    ensures
        ({
            let j = http_util::disconnect_entry(
                path,
                "completionId"@,
                id,
                model,
                streaming,
                elapsed_ms,
                bytes,
                last,
                None,
            );
            &&& j.get("path"@) == Some(JsonV::Str(path))
            &&& j.get("completionId"@) == Some(JsonV::Str(id))
            &&& j.get("model"@) == Some(JsonV::Str(model))
            &&& j.get("reason"@) == Some(JsonV::Str(http_util::disconnect_reason(last)))
            &&& j.get("streaming"@) == Some(JsonV::Bool(streaming))
            &&& j.get("elapsedMs"@) == Some(json::int_json(elapsed_ms as int))
            &&& j.get("bytesReceived"@) == Some(json::int_json(bytes as int))
            &&& j.get("lastCcEvent"@) == Some(JsonV::Str(last))
        }),
{
    broadcast use members::group_reading;

    reveal_strlit("path");
    reveal_strlit("completionId");
    reveal_strlit("model");
    reveal_strlit("reason");
    reveal_strlit("streaming");
    reveal_strlit("elapsedMs");
    reveal_strlit("bytesReceived");
    reveal_strlit("lastCcEvent");
    assert("path"@.len() == 4 && "completionId"@.len() == 12 && "model"@.len() == 5 && "reason"@.len() == 6);
    assert("streaming"@.len() == 9 && "elapsedMs"@.len() == 9 && "bytesReceived"@.len() == 13);
    assert("lastCcEvent"@.len() == 11);
    assert("elapsedMs"@[0] == 'e' && "streaming"@[0] == 's');
    let a = JsonV::obj().with("path"@, JsonV::Str(path)).with("completionId"@, JsonV::Str(id)).with(
        "model"@,
        JsonV::Str(model),
    ).with("reason"@, JsonV::Str(http_util::disconnect_reason(last)));
    assert(a is Object && a.get("path"@) == Some(JsonV::Str(path)) && a.get("completionId"@) == Some(JsonV::Str(id))
        && a.get("model"@) == Some(JsonV::Str(model)) && a.get("reason"@) == Some(
        JsonV::Str(http_util::disconnect_reason(last)),
    ));
}

/// The log begins with the settings: the address, the upstream, the models, the limits, and the
/// proxy without its credentials.
pub proof fn logs_begin_with_the_settings(cfg: ConfigV, limits: Limits, file: Seq<char>, models: nat)
    ensures
        ({
            let es = startup::startup_log(cfg, limits, file, models);
            &&& es.len() > 0
            &&& es[0].message == "CC Proxy started"@
            &&& es[0].data matches Some(b) && b.get("url"@) == Some(
                JsonV::Str("http://"@ + cfg.host + ":"@ + text::decimal(cfg.port as nat)),
            ) && b.get("api"@) == Some(JsonV::Str(cfg.api_base)) && b.get("models"@) == Some(
                json::int_json(models as int),
            ) && b.get("configFile"@) == Some(JsonV::Str(file)) && b.get("upstreamProxy"@) == Some(
                JsonV::Str(config::redacted(cfg.upstream_proxy)),
            ) && (cfg.log_file.len() > 0 ==> b.get("logFile"@) == Some(JsonV::Str(cfg.log_file)))
            &&& cfg.api_key.len() == 0 ==> es.last().message
                == "No API key in config. API key must be sent in Authorization: Bearer <key> header per request."@
        }),
{
    broadcast use members::group_reading;

    reveal_strlit("url");
    reveal_strlit("api");
    reveal_strlit("models");
    reveal_strlit("protocolVersion");
    reveal_strlit("configFile");
    reveal_strlit("session");
    reveal_strlit("zdr");
    reveal_strlit("emptySystemPlaceholder");
    reveal_strlit("logFile");
    reveal_strlit("keepAliveTimeout");
    reveal_strlit("idleTimeouts");
    reveal_strlit("maxInflight");
    reveal_strlit("maxBodyMB");
    reveal_strlit("upstreamProxy");
    assert("url"@.len() == 3 && "api"@.len() == 3 && "models"@.len() == 6 && "protocolVersion"@.len() == 15);
    assert("configFile"@.len() == 10 && "session"@.len() == 7 && "zdr"@.len() == 3);
    assert("emptySystemPlaceholder"@.len() == 22);
    assert("logFile"@.len() == 7 && "keepAliveTimeout"@.len() == 16 && "idleTimeouts"@.len() == 12);
    assert("maxInflight"@.len() == 11);
    assert("maxBodyMB"@.len() == 9 && "upstreamProxy"@.len() == 13 && "api"@[0] == 'a' && "logFile"@[0] == 'l');
    assert("session"@[0] == 's' && "url"@[0] == 'u' && "zdr"@[0] == 'z');
    let es = startup::startup_log(cfg, limits, file, models);
    let url = JsonV::Str("http://"@ + cfg.host + ":"@ + text::decimal(cfg.port as nat));
    let a = JsonV::obj().with("url"@, url).with("api"@, JsonV::Str(cfg.api_base)).with(
        "models"@,
        json::int_json(models as int),
    ).with("protocolVersion"@, JsonV::Str(crate::cc::CC_PROTOCOL_VERSION@)).with("configFile"@, JsonV::Str(file)).with(
        "session"@,
        JsonV::Str("12h + 1h jitter, per API key"@),
    );
    assert(a is Object && a.get("url"@) == Some(url) && a.get("api"@) == Some(JsonV::Str(cfg.api_base)) && a.get(
        "models"@,
    ) == Some(json::int_json(models as int)) && a.get("configFile"@) == Some(JsonV::Str(file)));
    let log = JsonV::Str(
        if cfg.log_file.len() == 0 {
            "(console only)"@
        } else {
            cfg.log_file
        },
    );
    let b = a.with("zdr"@, JsonV::Str(startup::zdr_note(cfg.zdr))).with(
        "emptySystemPlaceholder"@,
        JsonV::Str(startup::placeholder_note(cfg.empty_system_placeholder)),
    ).with("logFile"@, log);
    assert(b is Object && b.get("url"@) == a.get("url"@) && b.get("api"@) == a.get("api"@) && b.get("models"@) == a.get(
        "models"@,
    ) && b.get("configFile"@) == a.get("configFile"@) && b.get("logFile"@) == Some(log));
    let s = startup::banner(cfg, limits, file, models);
    assert(s.get("url"@) == b.get("url"@) && s.get("api"@) == b.get("api"@) && s.get("models"@) == b.get("models"@)
        && s.get("configFile"@) == b.get("configFile"@) && s.get("logFile"@) == b.get("logFile"@));
}

// ── devices ────────────────────────────────────────────────────

/// A fingerprint tells each signal by its hash, and the system of the profile as it is.
pub proof fn fingerprints_hold_their_signals(salt: Seq<char>, key: Seq<char>, profile: DeviceProfileV)
    ensures
        ({
            let fp = fingerprint::fingerprint_of(salt, key, profile);
            let hash = |v: Seq<char>| fingerprint::opt_str_json(fingerprint::signal_hash(v));
            &&& members::inner(fp, "components"@, "machineIdHash"@) == hash(fingerprint::machine_id_of(salt, key))
            &&& members::inner(fp, "components"@, "osUserHash"@) == hash(fingerprint::os_user_of(salt, key))
            &&& members::inner(fp, "components"@, "hostnameHash"@) == hash(fingerprint::hostname_of(salt, key))
            &&& members::inner(fp, "components"@, "gitEmailHash"@) == hash(fingerprint::git_email_of(salt, key))
            &&& members::inner(fp, "components"@, "platform"@) == Some(JsonV::Str(profile.platform))
            &&& members::inner(fp, "components"@, "arch"@) == Some(JsonV::Str(profile.arch))
            &&& members::inner(fp, "components"@, "osRelease"@) == Some(JsonV::Str(profile.os_release))
            &&& members::inner(fp, "components"@, "isContainer"@) == Some(JsonV::Bool(profile.is_container))
            &&& members::inner(fp, "components"@, "macHashes"@) == Some(
                fingerprint::strs_json(fingerprint::signal_hashes(fingerprint::macs_of(salt, key))),
            )
            &&& members::inner(fp, "components"@, "cpuModel"@) == Some(
                JsonV::Str(fingerprint::picked_cpu(salt, key).0),
            )
            &&& members::inner(fp, "components"@, "cpuCount"@) == Some(
                json::int_json(fingerprint::picked_cpu(salt, key).1 as int),
            )
            &&& members::inner(fp, "components"@, "memGiB"@) == Some(
                json::int_json(fingerprint::picked_mem(salt, key) as int),
            )
            &&& fp.get("thumbmark"@) == Some(
                JsonV::Str(
                    fingerprint::thumbmark_of(
                        fingerprint::machine_id_of(salt, key),
                        fingerprint::macs_of(salt, key),
                    ),
                ),
            )
        }),
{
    broadcast use members::group_reading;

    reveal_strlit("thumbmark");
    reveal_strlit("components");
    assert("thumbmark"@.len() == 9 && "components"@.len() == 10);
    reveal_strlit("machineIdHash");
    reveal_strlit("macHashes");
    reveal_strlit("osUserHash");
    reveal_strlit("hostnameHash");
    reveal_strlit("gitEmailHash");
    reveal_strlit("platform");
    reveal_strlit("arch");
    reveal_strlit("osRelease");
    reveal_strlit("cpuModel");
    reveal_strlit("cpuCount");
    reveal_strlit("memGiB");
    reveal_strlit("isContainer");
    reveal_strlit("timezone");
    reveal_strlit("runtime");
    reveal_strlit("collectorVersion");
    assert("machineIdHash"@.len() == 13 && "macHashes"@.len() == 9 && "osUserHash"@.len() == 10);
    assert("hostnameHash"@.len() == 12);
    assert("gitEmailHash"@.len() == 12 && "platform"@.len() == 8 && "arch"@.len() == 4 && "osRelease"@.len() == 9);
    assert("cpuModel"@.len() == 8 && "cpuCount"@.len() == 8 && "memGiB"@.len() == 6 && "isContainer"@.len() == 11);
    assert("timezone"@.len() == 8 && "runtime"@.len() == 7 && "collectorVersion"@.len() == 16 && "cpuCount"@[0] == 'c');
    assert("cpuCount"@[3] == 'C' && "cpuModel"@[0] == 'c' && "cpuModel"@[3] == 'M' && "gitEmailHash"@[0] == 'g');
    assert("hostnameHash"@[0] == 'h' && "macHashes"@[0] == 'm' && "osRelease"@[0] == 'o' && "platform"@[0] == 'p');
    assert("timezone"@[0] == 't');
    let m = fingerprint::opt_str_json(fingerprint::signal_hash(fingerprint::machine_id_of(salt, key)));
    let u = fingerprint::opt_str_json(fingerprint::signal_hash(fingerprint::os_user_of(salt, key)));
    let h = fingerprint::opt_str_json(fingerprint::signal_hash(fingerprint::hostname_of(salt, key)));
    let g = fingerprint::opt_str_json(fingerprint::signal_hash(fingerprint::git_email_of(salt, key)));
    let a = JsonV::obj().with_some("machineIdHash"@, m).with(
        "macHashes"@,
        fingerprint::strs_json(fingerprint::signal_hashes(fingerprint::macs_of(salt, key))),
    ).with_some("osUserHash"@, u).with_some("hostnameHash"@, h).with_some("gitEmailHash"@, g);
    assert(a is Object);
    assert(a.get("machineIdHash"@) == m);
    assert(a.get("osUserHash"@) == u);
    assert(a.get("hostnameHash"@) == h);
    assert(a.get("gitEmailHash"@) == g);
    let macs = Some(fingerprint::strs_json(fingerprint::signal_hashes(fingerprint::macs_of(salt, key))));
    assert(a.get("macHashes"@) == macs);
    let b = a.with("platform"@, JsonV::Str(profile.platform)).with("arch"@, JsonV::Str(profile.arch)).with(
        "osRelease"@,
        JsonV::Str(profile.os_release),
    );
    assert(b is Object && b.get("machineIdHash"@) == m && b.get("osUserHash"@) == u && b.get("hostnameHash"@) == h
        && b.get("gitEmailHash"@) == g && b.get("platform"@) == Some(JsonV::Str(profile.platform)) && b.get("arch"@)
        == Some(JsonV::Str(profile.arch)) && b.get("osRelease"@) == Some(JsonV::Str(profile.os_release)));
    let cpu = fingerprint::picked_cpu(salt, key);
    let d = b.with("cpuModel"@, JsonV::Str(cpu.0)).with("cpuCount"@, json::int_json(cpu.1 as int)).with(
        "memGiB"@,
        json::int_json(fingerprint::picked_mem(salt, key) as int),
    ).with("isContainer"@, JsonV::Bool(profile.is_container));
    assert(b.get("macHashes"@) == macs);
    assert(d is Object && d.get("machineIdHash"@) == m && d.get("osUserHash"@) == u && d.get("hostnameHash"@) == h
        && d.get("gitEmailHash"@) == g && d.get("platform"@) == b.get("platform"@) && d.get("arch"@) == b.get("arch"@)
        && d.get("osRelease"@) == b.get("osRelease"@) && d.get("macHashes"@) == macs);
    assert(d.get("cpuModel"@) == Some(JsonV::Str(cpu.0)) && d.get("cpuCount"@) == Some(json::int_json(cpu.1 as int)));
    assert(d.get("memGiB"@) == Some(json::int_json(fingerprint::picked_mem(salt, key) as int)));
    assert(d.get("isContainer"@) == Some(JsonV::Bool(profile.is_container)));
    let c = fingerprint::components_of(salt, key, profile);
    assert(c.get("macHashes"@) == macs && c.get("cpuModel"@) == d.get("cpuModel"@) && c.get("cpuCount"@) == d.get(
        "cpuCount"@,
    ) && c.get("memGiB"@) == d.get("memGiB"@) && c.get("isContainer"@) == d.get("isContainer"@));
    assert(c.get("machineIdHash"@) == m && c.get("osUserHash"@) == u && c.get("hostnameHash"@) == h && c.get(
        "gitEmailHash"@,
    ) == g && c.get("platform"@) == b.get("platform"@) && c.get("arch"@) == b.get("arch"@) && c.get("osRelease"@)
        == b.get("osRelease"@));
}

/// A signal is told by the hash of its text in lower case; white space around it makes no
/// difference, and a blank one is not told.
pub proof fn signals_are_hashed(a: Seq<char>, t: Seq<char>, b: Seq<char>)
    requires
        said::is_blank(a),
        said::is_blank(b),
        t.len() > 0 ==> !text::is_space(t[0]) && !text::is_space(t.last()),
    ensures
        t.len() > 0 ==> fingerprint::signal_hash(a + t + b) == Some(
            util::hex_text(
                util::sha256(
                    vstd::utf8::encode_utf8(fingerprint::FP_SALT@ + "\0"@ + text::lowercase(t)),
                ),
            ),
        ),
        t.len() == 0 ==> fingerprint::signal_hash(a + t + b) is None,
{
    said::white_space_is_trimmed(a, t, b);
}

/// Signals that are not blank are all told, in their order.
pub proof fn all_signals_are_told(v: Seq<Seq<char>>)
    requires
        forall|i: int| 0 <= i < v.len() ==> text::trimmed(#[trigger] v[i]).len() > 0,
    ensures
        fingerprint::signal_hashes(v).len() == v.len(),
        forall|i: int| 0 <= i < v.len() ==> Some(#[trigger] fingerprint::signal_hashes(v)[i])
            == fingerprint::signal_hash(v[i]),
    decreases v.len(),
{
    if v.len() > 0 {
        let w = v.drop_last();
        assert forall|i: int| 0 <= i < w.len() implies text::trimmed(#[trigger] w[i]).len() > 0 by {
            assert(w[i] == v[i]);
        }
        all_signals_are_told(w);
        assert(text::trimmed(v[v.len() - 1]).len() > 0);
        let h = fingerprint::signal_hashes(v);
        assert forall|i: int| 0 <= i < v.len() implies Some(#[trigger] h[i]) == fingerprint::signal_hash(v[i]) by {
            if i < w.len() {
                assert(h[i] == fingerprint::signal_hashes(w)[i]);
                assert(w[i] == v[i]);
            }
        }
    }
}

/// What a device is made up of depends on the salt, on the key and on the field alone.
pub proof fn devices_are_made_up_of_their_key(salt: Seq<char>, key: Seq<char>, field: Seq<char>)
    ensures
        fingerprint::field_digest(salt, key, field) == util::sha256(
            vstd::utf8::encode_utf8(salt + "\0"@ + key + "\0"@ + field),
        ),
{
}

/// The mark of a device is the hash of its identifier and of all its addresses.
pub proof fn marks_are_of_the_device(machine_id: Seq<char>, macs: Seq<Seq<char>>)
    ensures
        fingerprint::thumbmark_of(machine_id, macs) == util::hex_text(
            util::sha256(
                vstd::utf8::encode_utf8(
                    fingerprint::FP_SALT@ + "\0machine\0"@ + (machine_id + "|"@ + text::joined(macs, ","@)),
                ),
            ),
        ),
{
}

/// The project of a device is the one that is set.
pub proof fn projects_are_kept(dir: Seq<char>)
    ensures
        dir.len() > 0 ==> fingerprint::profile_of(dir).project_dir == dir,
        fingerprint::profile_of(dir).platform == "win32"@,
        fingerprint::profile_of(dir).arch == "x64"@,
{
}

} // verus!
