//! What the proxy remembers between requests: sessions, fingerprints, models, and counts.

use vstd::prelude::*;
use crate::cc;
use crate::cc::{forward_request, no_headers, push_header, Outgoing, OutgoingV, CC_PROTOCOL_VERSION};
use crate::config;
use crate::config::{Config, ConfigV, Limits};
use crate::fingerprint;
use crate::fingerprint::{generate_fingerprint, DeviceProfile, DeviceProfileV};
use crate::json;
use crate::json::{json_string, parse_json, parse_json_bytes, Json, JsonV};
use crate::table::Table;
use crate::text;
use crate::text::{cat, cat3, chars_of, same};
use crate::util;
use crate::util::{generate_traceparent, now_millis, now_unix, random_below, random_hex, random_uuid};

verus! {

/// How long a session lasts at least, in milliseconds.
pub const SESSION_DURATION_MS: i64 = 43_200_000;

/// By how much the length of a session varies.
pub const SESSION_JITTER_MS: i64 = 3_600_000;

/// After what time a device is announced again at the earliest, in milliseconds.
pub const INIT_REFRESH_MS: i64 = 28_800_000;

/// By how much that time varies.
pub const INIT_JITTER_MS: i64 = 7_200_000;

/// A session with the upstream.
#[derive(Debug)]
pub struct SessionEntry {
    pub session_id: String,
    pub expires_at: i64,
}

/// The model of a session.
pub struct SessionV {
    pub session_id: Seq<char>,
    pub expires_at: i64,
}

impl SessionEntry {
    pub open spec fn view(&self) -> SessionV {
        SessionV { session_id: self.session_id@, expires_at: self.expires_at }
    }
}

/// What is remembered of an API key.
#[derive(Debug)]
pub struct KeyState {
    pub fingerprint: Json,
    /// When its device is next announced, in milliseconds since 1970.
    pub next_init_at: i64,
}

/// The model of what is remembered of an API key.
pub struct KeyStateV {
    pub fingerprint: JsonV,
    pub next_init_at: i64,
}

impl KeyState {
    pub open spec fn view(&self) -> KeyStateV {
        KeyStateV { fingerprint: self.fingerprint@, next_init_at: self.next_init_at }
    }
}

impl Clone for KeyState {
    fn clone(&self) -> (r: Self)
        ensures
            r@ == self@,
    {
        KeyState { fingerprint: self.fingerprint.clone(), next_init_at: self.next_init_at }
    }
}

/// A model that can be asked for.
#[derive(Debug)]
pub struct ModelInfo {
    pub id: String,
    pub name: String,
}

/// The model of such an entry: its identifier and its name.
pub open spec fn infos(v: Seq<ModelInfo>) -> Seq<(Seq<char>, Seq<char>)> {
    v.map_values(|m: ModelInfo| (m.id@, m.name@))
}

/// Models that were asked for, and when, in milliseconds.
struct ModelsCache {
    models: Vec<ModelInfo>,
    fetched_at: u64,
}

/// What the proxy remembers.
pub struct AppState {
    cfg: Config,
    limits: Limits,
    profile: DeviceProfile,
    known: Vec<ModelInfo>,
    sessions: Table<SessionEntry>,
    key_states: Table<KeyState>,
    inflight: usize,
    consecutive_timeouts: usize,
    models_cache: Option<ModelsCache>,
}

/// The model of what the proxy remembers.
pub struct AppStateV {
    pub cfg: ConfigV,
    pub limits: Limits,
    pub profile: DeviceProfileV,
    /// The models that are known without asking the upstream.
    pub known: Seq<(Seq<char>, Seq<char>)>,
    pub sessions: Map<Seq<char>, SessionV>,
    pub key_states: Map<Seq<char>, KeyStateV>,
    pub inflight: usize,
    pub consecutive_timeouts: usize,
    /// Models that were asked for, and when.
    pub models: Option<(Seq<(Seq<char>, Seq<char>)>, u64)>,
}

/// The models that are known without being told. The Anthropic models of the upstream are not
/// among them; a file of models names those.
pub open spec fn built_in_table() -> Seq<(Seq<char>, Seq<char>)> {
    seq![
        ("gpt-5.5"@, "GPT-5.5"@),
        ("gpt-5.4"@, "GPT-5.4"@),
        ("gpt-5.4-mini"@, "GPT-5.4 Mini"@),
        ("gpt-5.3-codex"@, "GPT-5.3 Codex"@),
        ("deepseek/deepseek-v4-pro"@, "DeepSeek V4 Pro"@),
        ("deepseek/deepseek-v4-flash"@, "DeepSeek V4 Flash"@),
        ("moonshotai/Kimi-K2.6"@, "Kimi K2.6"@),
        ("moonshotai/Kimi-K2.5"@, "Kimi K2.5"@),
        ("zai-org/GLM-5.1"@, "GLM 5.1"@),
        ("zai-org/GLM-5"@, "GLM 5"@),
        ("MiniMaxAI/MiniMax-M3"@, "MiniMax M3"@),
        ("MiniMaxAI/MiniMax-M2.7"@, "MiniMax M2.7"@),
        ("MiniMaxAI/MiniMax-M2.5"@, "MiniMax M2.5"@),
        ("Qwen/Qwen3.6-Max-Preview"@, "Qwen 3.6 Max Preview"@),
        ("Qwen/Qwen3.6-Plus"@, "Qwen 3.6 Plus"@),
        ("Qwen/Qwen3.7-Max"@, "Qwen 3.7 Max"@),
        ("stepfun/Step-3.7-Flash"@, "Step 3.7 Flash"@),
        ("stepfun/Step-3.5-Flash"@, "Step 3.5 Flash"@),
        ("xiaomi/mimo-v2.5-pro"@, "MiMo V2.5 Pro"@),
        ("xiaomi/mimo-v2.5"@, "MiMo V2.5"@),
        ("google/gemini-3.5-flash"@, "Gemini 3.5 Flash"@),
        ("google/gemini-3.1-flash-lite"@, "Gemini 3.1 Flash Lite"@),
    ]
}

pub open spec fn named(v: Seq<(&'static str, &'static str)>) -> Seq<(Seq<char>, Seq<char>)> {
    v.map_values(|e: (&'static str, &'static str)| (e.0@, e.1@))
}

/// The models that are known without being told. The Anthropic models of the upstream are not
/// among them; a file of models names those.
pub fn built_in_models() -> (r: Vec<ModelInfo>)
    ensures
        infos(r@) == built_in_table(),
{
    let table = vec![
        ("gpt-5.5", "GPT-5.5"),
        ("gpt-5.4", "GPT-5.4"),
        ("gpt-5.4-mini", "GPT-5.4 Mini"),
        ("gpt-5.3-codex", "GPT-5.3 Codex"),
        ("deepseek/deepseek-v4-pro", "DeepSeek V4 Pro"),
        ("deepseek/deepseek-v4-flash", "DeepSeek V4 Flash"),
        ("moonshotai/Kimi-K2.6", "Kimi K2.6"),
        ("moonshotai/Kimi-K2.5", "Kimi K2.5"),
        ("zai-org/GLM-5.1", "GLM 5.1"),
        ("zai-org/GLM-5", "GLM 5"),
        ("MiniMaxAI/MiniMax-M3", "MiniMax M3"),
        ("MiniMaxAI/MiniMax-M2.7", "MiniMax M2.7"),
        ("MiniMaxAI/MiniMax-M2.5", "MiniMax M2.5"),
        ("Qwen/Qwen3.6-Max-Preview", "Qwen 3.6 Max Preview"),
        ("Qwen/Qwen3.6-Plus", "Qwen 3.6 Plus"),
        ("Qwen/Qwen3.7-Max", "Qwen 3.7 Max"),
        ("stepfun/Step-3.7-Flash", "Step 3.7 Flash"),
        ("stepfun/Step-3.5-Flash", "Step 3.5 Flash"),
        ("xiaomi/mimo-v2.5-pro", "MiMo V2.5 Pro"),
        ("xiaomi/mimo-v2.5", "MiMo V2.5"),
        ("google/gemini-3.5-flash", "Gemini 3.5 Flash"),
        ("google/gemini-3.1-flash-lite", "Gemini 3.1 Flash Lite"),
    ];
    assert(named(table@) =~= built_in_table());
    let mut r: Vec<ModelInfo> = Vec::new();
    let mut i: usize = 0;
    assert(infos(r@) =~= named(table@).take(0));
    while i < table.len()
        invariant
            i <= table@.len(),
            infos(r@) == named(table@).take(i as int),
        decreases table.len() - i,
    {
        let (id, name) = table[i];
        push_model(&mut r, id, name);
        i = i + 1;
        assert(named(table@).take(i as int) =~= named(table@).take(i - 1).push((id@, name@)));
    }
    assert(named(table@).take(i as int) =~= named(table@));
    r
}

fn push_model(v: &mut Vec<ModelInfo>, id: &str, name: &str)
    ensures
        infos(final(v)@) == infos(old(v)@).push((id@, name@)),
{
    v.push(ModelInfo { id: id.to_owned(), name: name.to_owned() });
    assert(infos(v@) =~= infos(old(v)@).push((id@, name@)));
}

fn copy_models(v: &Vec<ModelInfo>) -> (r: Vec<ModelInfo>)
    ensures
        infos(r@) == infos(v@),
{
    let mut r: Vec<ModelInfo> = Vec::new();
    let mut i: usize = 0;
    assert(infos(r@) =~= infos(v@).take(0));
    while i < v.len()
        invariant
            i <= v@.len(),
            infos(r@) == infos(v@).take(i as int),
        decreases v.len() - i,
    {
        push_model(&mut r, v[i].id.as_str(), v[i].name.as_str());
        i = i + 1;
        assert(infos(v@).take(i as int) =~= infos(v@).take(i - 1).push((v@[i - 1].id@, v@[i - 1].name@)));
    }
    assert(infos(v@).take(i as int) =~= infos(v@));
    r
}

/// The models in the answer of the upstream: those that have a text as identifier.
pub open spec fn listed_models(data: Seq<JsonV>) -> Seq<(Seq<char>, Seq<char>)>
    decreases data.len(),
{
    if data.len() == 0 {
        Seq::empty()
    } else {
        let before = listed_models(data.drop_last());
        match data.last().get_str("id"@) {
            Some(id) => before.push((id, id)),
            None => before,
        }
    }
}

fn models_listed(data: &Vec<Json>) -> (r: Vec<ModelInfo>)
    ensures
        infos(r@) == listed_models(json::models(data@)),
{
    let ghost all = json::models(data@);
    let mut r: Vec<ModelInfo> = Vec::new();
    let mut i: usize = 0;
    assert(all.take(0) =~= Seq::<JsonV>::empty());
    assert(infos(r@) =~= Seq::<(Seq<char>, Seq<char>)>::empty());
    while i < data.len()
        invariant
            i <= data@.len(),
            all == json::models(data@),
            infos(r@) == listed_models(all.take(i as int)),
        decreases data.len() - i,
    {
        assert(all.take(i + 1).drop_last() =~= all.take(i as int));
        assert(all.take(i + 1).last() == data@[i as int]@);
        if let Some(id) = data[i].get_str("id") {
            push_model(&mut r, id, id);
        }
        i = i + 1;
    }
    assert(all.take(i as int) =~= all);
    r
}

/// The models in a value that has the form of an upstream list: none where it has another.
pub open spec fn models_in(list: Option<JsonV>) -> Option<Seq<(Seq<char>, Seq<char>)>> {
    match list {
        Some(j) => match j.get("data"@) {
            Some(JsonV::Array(data)) => Some(listed_models(data)),
            _ => None,
        },
        None => None,
    }
}

fn find_models(list: &Option<Json>) -> (r: Option<Vec<ModelInfo>>)
    ensures
        match r {
            Some(v) => models_in(json::owned_json(*list)) == Some(infos(v@)),
            None => models_in(json::owned_json(*list)) is None,
        },
{
    match list {
        Some(j) => match j.get("data") {
            Some(d) => match d.as_array() {
                Some(data) => Some(models_listed(data)),
                None => None,
            },
            None => None,
        },
        None => None,
    }
}

/// The models that a file lists, in the form of an upstream list: none where it has another.
pub fn models_of_file(content: &str) -> (r: Vec<ModelInfo>)
    ensures
        infos(r@) == (match models_in(json::json_parsed(content@)) {
            Some(m) => m,
            None => Seq::empty(),
        }),
{
    match find_models(&parse_json(content)) {
        Some(v) => v,
        None => {
            let r: Vec<ModelInfo> = Vec::new();
            assert(infos(r@) =~= Seq::<(Seq<char>, Seq<char>)>::empty());
            r
        },
    }
}

/// Where a list of models comes from.
pub enum ModelsSource {
    /// It is known.
    Known(Vec<ModelInfo>),
    /// The upstream is to be asked.
    Ask(Outgoing),
}

/// The model of where a list of models comes from.
pub enum ModelsSourceV {
    Known(Seq<(Seq<char>, Seq<char>)>),
    Ask(OutgoingV),
}

impl ModelsSource {
    pub open spec fn view(&self) -> ModelsSourceV {
        match self {
            ModelsSource::Known(v) => ModelsSourceV::Known(infos(v@)),
            ModelsSource::Ask(o) => ModelsSourceV::Ask(o@),
        }
    }
}

/// A slot among the requests in flight. It has to be handed back.
#[derive(Debug, PartialEq, Eq, Structural)]
pub struct InflightGuard {
    acquired: bool,
    limited: bool,
}

impl InflightGuard {
    pub closed spec fn acquired(&self) -> bool {
        self.acquired
    }

    pub closed spec fn limited(&self) -> bool {
        self.limited
    }

    /// Whether there is a limit and no slot was left.
    pub fn rejected(&self) -> (r: bool)
        ensures
            r == (self.limited() && !self.acquired()),
    {
        self.limited && !self.acquired
    }
}

/// The two requests that announce a device.
#[derive(Debug)]
pub struct InitPlan {
    pub fingerprint: Outgoing,
    pub lifecycle: Outgoing,
}

// ── the model ──────────────────────────────────────────────────

/// The session of a key at a time: the one that it has while that lasts, else a new one.
pub open spec fn session_for(
    sessions: Map<Seq<char>, SessionV>,
    api_key: Seq<char>,
    now: i64,
    jitter: i64,
    fresh: Seq<char>,
) -> (Map<Seq<char>, SessionV>, Seq<char>) {
    if sessions.contains_key(api_key) && now < sessions[api_key].expires_at {
        (sessions, sessions[api_key].session_id)
    } else {
        (
            sessions.insert(
                api_key,
                SessionV {
                    session_id: fresh,
                    expires_at: now.wrapping_add(SESSION_DURATION_MS).wrapping_add(jitter),
                },
            ),
            fresh,
        )
    }
}

/// A text that is long enough to name a session.
pub open spec fn usable_id(o: Option<Seq<char>>) -> Option<Seq<char>> {
    match o {
        Some(s) => if s.len() >= 8 {
            Some(s)
        } else {
            None
        },
        None => None,
    }
}

/// The session that a client names: the first that is long enough.
pub open spec fn named_session(
    a: Option<Seq<char>>,
    b: Option<Seq<char>>,
    c: Option<Seq<char>>,
    d: Option<Seq<char>>,
) -> Option<Seq<char>> {
    match usable_id(a) {
        Some(s) => Some(s),
        None => match usable_id(b) {
            Some(s) => Some(s),
            None => match usable_id(c) {
                Some(s) => Some(s),
                None => usable_id(d),
            },
        },
    }
}

pub open spec fn expired(s: SessionV, now: i64) -> bool {
    now >= s.expires_at
}

/// The text that `components` has for a member, or the default.
pub open spec fn component(fp: JsonV, k: Seq<char>, default: Seq<char>) -> Seq<char> {
    match json::str_in(fp.get2("components"@, k)) {
        Some(s) => s,
        None => default,
    }
}

/// The body of the event that announces a session.
pub open spec fn lifecycle_json(cfg: ConfigV, fp: JsonV, session_hex: Seq<char>) -> JsonV {
    JsonV::obj().with("eventType"@, JsonV::Str("cli_session_exists"@)).with(
        "metadata"@,
        JsonV::obj().with("sessionId"@, JsonV::Str("sess_"@ + session_hex)).with(
            "cliVersion"@,
            JsonV::Str(CC_PROTOCOL_VERSION@),
        ).with(
            "mode"@,
            JsonV::Str(
                if cfg.cli_session_mode.len() == 0 {
                    "interactive"@
                } else {
                    cfg.cli_session_mode
                },
            ),
        ).with(
            "os"@,
            JsonV::Str(component(fp, "platform"@, "win32"@) + "-"@ + component(fp, "arch"@, "x64"@)),
        ),
    )
}

pub open spec fn init_headers(cfg: ConfigV, api_key: Seq<char>) -> Seq<(Seq<char>, Seq<char>)> {
    let always = Seq::<(Seq<char>, Seq<char>)>::empty().push(("content-type"@, "application/json"@)).push(
        ("x-cli-environment"@, "production"@),
    ).push(("authorization"@, "Bearer "@ + api_key)).push(("x-command-code-version"@, CC_PROTOCOL_VERSION@));
    if cfg.zdr {
        always.push(("x-cmd-zdr"@, "1"@))
    } else {
        always
    }
}

/// The request that tells the fingerprint of a device.
pub open spec fn fingerprint_request(cfg: ConfigV, api_key: Seq<char>, fp: JsonV) -> OutgoingV {
    OutgoingV {
        url: config::without_slashes(cfg.api_base) + "/alpha/fingerprint/record"@,
        headers: init_headers(cfg, api_key),
        body: json::json_text(fp),
    }
}

/// The request that announces a session.
pub open spec fn lifecycle_request(cfg: ConfigV, api_key: Seq<char>, fp: JsonV, session_hex: Seq<char>) -> OutgoingV {
    OutgoingV {
        url: config::without_slashes(cfg.api_base) + "/alpha/lifecycle-events"@,
        headers: init_headers(cfg, api_key),
        body: json::json_text(lifecycle_json(cfg, fp, session_hex)),
    }
}

/// The request for the list of models.
pub open spec fn models_request(cfg: ConfigV, api_key: Seq<char>) -> OutgoingV {
    OutgoingV {
        url: config::without_slashes(cfg.api_base) + "/provider/v1/models"@,
        headers: Seq::<(Seq<char>, Seq<char>)>::empty().push(("authorization"@, "Bearer "@ + api_key)).push(
            ("x-cli-environment"@, "production"@),
        ).push(("x-command-code-version"@, CC_PROTOCOL_VERSION@)),
        body: Seq::empty(),
    }
}

impl AppStateV {
    /// Before any request. The models of `first` come before those that are built in.
    pub open spec fn start(cfg: ConfigV, limits: Limits, first: Seq<(Seq<char>, Seq<char>)>) -> AppStateV {
        AppStateV {
            cfg,
            limits,
            profile: fingerprint::profile_of(cfg.device_project_dir),
            known: first + built_in_table(),
            sessions: Map::empty(),
            key_states: Map::empty(),
            inflight: 0,
            consecutive_timeouts: 0,
            models: None,
        }
    }

    /// What always holds: some model is known, the requests in flight are within their limit, and
    /// what is remembered of a key is the fingerprint of that key.
    pub open spec fn valid(self) -> bool {
        &&& self.known.len() > 0
        &&& self.limits.max_inflight > 0 ==> self.inflight <= self.limits.max_inflight
        &&& forall|k: Seq<char>|
            self.key_states.contains_key(k) ==> (#[trigger] self.key_states[k]).fingerprint
                == self.fingerprint_for(k)
    }

    /// The fingerprint that belongs to a key.
    pub open spec fn fingerprint_for(self, api_key: Seq<char>) -> JsonV {
        fingerprint::fingerprint_of(self.cfg.fingerprint_salt, api_key, self.profile)
    }

    /// The state after a key was seen.
    pub open spec fn knowing(self, api_key: Seq<char>) -> AppStateV {
        if self.key_states.contains_key(api_key) {
            self
        } else {
            AppStateV {
                key_states: self.key_states.insert(
                    api_key,
                    KeyStateV { fingerprint: self.fingerprint_for(api_key), next_init_at: 0 },
                ),
                ..self
            }
        }
    }

    /// Whether the device of a key is to be announced at a time.
    pub open spec fn init_due(self, api_key: Seq<char>, now: i64) -> bool {
        now >= self.knowing(api_key).key_states[api_key].next_init_at
    }

    /// The state after the device of a key was announced.
    pub open spec fn announced(self, api_key: Seq<char>, now: i64, jitter: i64) -> AppStateV {
        if self.key_states.contains_key(api_key) {
            AppStateV {
                key_states: self.key_states.insert(
                    api_key,
                    KeyStateV {
                        next_init_at: now.wrapping_add(INIT_REFRESH_MS.wrapping_add(jitter)),
                        ..self.key_states[api_key]
                    },
                ),
                ..self
            }
        } else {
            self
        }
    }

    /// The state without the sessions that have ended, and without what was remembered of their
    /// keys.
    pub open spec fn cleaned(self, now: i64) -> AppStateV {
        AppStateV {
            sessions: Map::new(
                |k: Seq<char>| self.sessions.contains_key(k) && !expired(self.sessions[k], now),
                |k: Seq<char>| self.sessions[k],
            ),
            key_states: Map::new(
                |k: Seq<char>|
                    self.key_states.contains_key(k) && !(self.sessions.contains_key(k) && expired(
                        self.sessions[k],
                        now,
                    )),
                |k: Seq<char>| self.key_states[k],
            ),
            ..self
        }
    }

    /// Whether there is a limit on requests in flight, and a slot left below it.
    pub open spec fn has_slot(self) -> bool {
        0 < self.limits.max_inflight && self.inflight < self.limits.max_inflight
    }

    /// The state with one more request in flight, where there is a slot for it.
    pub open spec fn slot_taken(self) -> AppStateV {
        if self.has_slot() {
            AppStateV { inflight: (self.inflight + 1) as usize, ..self }
        } else {
            self
        }
    }

    /// The state with one request less in flight.
    pub open spec fn slot_handed_back(self) -> AppStateV {
        if self.inflight > 0 {
            AppStateV { inflight: (self.inflight - 1) as usize, ..self }
        } else {
            self
        }
    }

    /// The models that were asked for less than the refresh interval ago.
    pub open spec fn recent_models(self, now: u64) -> Option<Seq<(Seq<char>, Seq<char>)>> {
        match self.models {
            Some(m) => if (if now < m.1 {
                0
            } else {
                now - m.1
            }) < self.cfg.model_refresh_interval_ms {
                Some(m.0)
            } else {
                None
            },
            None => None,
        }
    }

    /// Where the list of models comes from.
    pub open spec fn models_source(self, api_key: Option<Seq<char>>, now: u64) -> ModelsSourceV {
        match self.recent_models(now) {
            Some(m) => ModelsSourceV::Known(m),
            None => match api_key {
                Some(k) => if self.cfg.use_provider_models {
                    ModelsSourceV::Ask(models_request(self.cfg, k))
                } else {
                    ModelsSourceV::Known(self.known)
                },
                None => ModelsSourceV::Known(self.known),
            },
        }
    }
}

/// The models in an answer of the upstream: there are some where it succeeded with a list.
pub open spec fn models_answer(status: u16, body: Seq<u8>) -> Option<Seq<(Seq<char>, Seq<char>)>> {
    models_in(succeeded_json(status, body))
}

/// The value in the body of an answer that succeeded.
pub open spec fn succeeded_json(status: u16, body: Seq<u8>) -> Option<JsonV> {
    if 200 <= status < 300 {
        json::json_parsed_bytes(body)
    } else {
        None
    }
}

fn json_of_success(status: u16, body: &[u8]) -> (r: Option<Json>)
    ensures
        json::owned_json(r) == succeeded_json(status, body@),
{
    if 200 <= status && status < 300 {
        parse_json_bytes(body)
    } else {
        None
    }
}

/// The models in an answer of the upstream, where it succeeded with a list.
pub fn models_in_answer(status: u16, body: &[u8]) -> (r: Option<Vec<ModelInfo>>)
    ensures
        match r {
            Some(v) => models_answer(status, body@) == Some(infos(v@)),
            None => models_answer(status, body@) is None,
        },
{
    find_models(&json_of_success(status, body))
}

// ── the state ──────────────────────────────────────────────────

spec fn session_views(m: Map<Seq<char>, SessionEntry>) -> Map<Seq<char>, SessionV> {
    m.map_values(|e: SessionEntry| e@)
}

spec fn key_views(m: Map<Seq<char>, KeyState>) -> Map<Seq<char>, KeyStateV> {
    m.map_values(|e: KeyState| e@)
}

fn long_enough(o: Option<&str>) -> (r: Option<&str>)
    ensures
        text::str_opt(r) == usable_id(text::str_opt(o)),
{
    match o {
        Some(s) => if chars_of(s).len() >= 8 {
            Some(s)
        } else {
            None
        },
        None => None,
    }
}

fn component_text<'a>(fp: &'a Json, k: &str, default: &'a str) -> (r: &'a str)
    ensures
        r@ == component(fp@, k@, default@),
{
    match fp.get2("components", k) {
        Some(j) => match j.as_str() {
            Some(s) => s,
            None => default,
        },
        None => default,
    }
}

impl AppState {
    pub closed spec fn view(&self) -> AppStateV {
        AppStateV {
            cfg: self.cfg@,
            limits: self.limits,
            profile: self.profile@,
            known: infos(self.known@),
            sessions: session_views(self.sessions@),
            key_states: key_views(self.key_states@),
            inflight: self.inflight,
            consecutive_timeouts: self.consecutive_timeouts,
            models: match self.models_cache {
                Some(c) => Some((infos(c.models@), c.fetched_at)),
                None => None,
            },
        }
    }

    pub closed spec fn wf(&self) -> bool {
        self.sessions.wf() && self.key_states.wf() && self@.valid()
    }

    /// Before any request. The models of `first` are known besides those that are built in, and
    /// come before them.
    pub fn new(cfg: Config, limits: Limits, first: Vec<ModelInfo>) -> (r: Self)
        ensures
            r.wf(),
            r@ == AppStateV::start(cfg@, limits, infos(first@)),
    {
        let profile = DeviceProfile::new(cfg.device_project_dir.as_str());
        let mut known = first;
        let mut more = built_in_models();
        let ghost table = infos(more@);
        assert(table.len() == more@.len());
        known.append(&mut more);
        assert(infos(known@) =~= infos(first@) + table);
        let r = AppState {
            cfg,
            limits,
            profile,
            known,
            sessions: Table::new(),
            key_states: Table::new(),
            inflight: 0,
            consecutive_timeouts: 0,
            models_cache: None,
        };
        assert(r@.sessions =~= Map::<Seq<char>, SessionV>::empty());
        assert(r@.key_states =~= Map::<Seq<char>, KeyStateV>::empty());
        r
    }

    pub fn cfg(&self) -> (r: &Config)
        ensures
            r@ == self@.cfg,
    {
        &self.cfg
    }

    pub fn limits(&self) -> (r: Limits)
        ensures
            r == self@.limits,
    {
        self.limits
    }

    pub fn profile(&self) -> (r: &DeviceProfile)
        ensures
            r@ == self@.profile,
    {
        &self.profile
    }

    /// How many models are known without asking the upstream.
    pub fn known_models(&self) -> (r: usize)
        ensures
            r == self@.known.len(),
    {
        self.known.len()
    }

    /// The model that a message is said to come from where its request names none: the first that
    /// is known. There is no built-in Anthropic model for it.
    pub fn message_model(&self) -> (r: &str)
        requires
            self.wf(),
        ensures
            r@ == self@.known[0].0,
    {
        assert(infos(self.known@).len() == self.known@.len());
        self.known[0].id.as_str()
    }

    /// The upstream address without `/` at its end.
    pub fn api_base(&self) -> (r: &str)
        ensures
            r@ == config::without_slashes(self@.cfg.api_base),
    {
        self.cfg.api_base_trimmed()
    }

    // ── sessions ───────────────────────────────────────────────

    /// The session of a key at a time, in milliseconds since 1970; `jitter` and `fresh` are for a
    /// new one.
    pub fn ensure_session_at(&mut self, api_key: &str, now: i64, jitter: i64, fresh: &str) -> (r: String)
        requires
            old(self).wf(),
        ensures
            final(self).wf(),
            final(self)@ == (AppStateV {
                sessions: session_for(old(self)@.sessions, api_key@, now, jitter, fresh@).0,
                ..old(self)@
            }),
            r@ == session_for(old(self)@.sessions, api_key@, now, jitter, fresh@).1,
    {
        if let Some(e) = self.sessions.get(api_key) {
            if now < e.expires_at {
                return e.session_id.clone();
            }
        }
        let entry = SessionEntry {
            session_id: fresh.to_owned(),
            expires_at: now.wrapping_add(SESSION_DURATION_MS).wrapping_add(jitter),
        };
        let ghost before = self.sessions@;
        self.sessions.insert(api_key, entry);
        assert(session_views(self.sessions@) =~= session_views(before).insert(api_key@, entry@));
        fresh.to_owned()
    }

    /// The session of a key; a new one has a random identifier and a random length.
    pub fn ensure_session(&mut self, api_key: &str) -> (r: String)
        requires
            old(self).wf(),
        ensures
            final(self).wf(),
            exists|now: i64, jitter: i64, fresh: Seq<char>|
                0 <= now && 0 <= jitter < SESSION_JITTER_MS && util::uuid_text(fresh) && (final(self)@.sessions, r@)
                    == #[trigger] session_for(old(self)@.sessions, api_key@, now, jitter, fresh) && final(self)@ == (
                AppStateV { sessions: final(self)@.sessions, ..old(self)@ }),
    {
        let now = now_millis();
        let jitter = random_below(SESSION_JITTER_MS);
        let fresh = random_uuid();
        self.ensure_session_at(api_key, now, jitter, fresh.as_str())
    }

    /// The session that is kept for a key.
    pub fn session_of(&self, api_key: &str) -> (r: Option<&str>)
        ensures
            match r {
                Some(s) => self@.sessions.contains_key(api_key@) && s@ == self@.sessions[api_key@].session_id,
                None => !self@.sessions.contains_key(api_key@),
            },
    {
        match self.sessions.get(api_key) {
            Some(e) => Some(e.session_id.as_str()),
            None => None,
        }
    }

    /// The session of a request: the one that the client names in a header or by its cache key,
    /// else that of its API key.
    pub fn get_session_id(
        &mut self,
        x_session_id: Option<&str>,
        x_claude_code_session_id: Option<&str>,
        session_id: Option<&str>,
        api_key: &str,
        prompt_cache_key: Option<&str>,
    ) -> (r: String)
        requires
            old(self).wf(),
        ensures
            final(self).wf(),
            match named_session(
                text::str_opt(x_session_id),
                text::str_opt(x_claude_code_session_id),
                text::str_opt(session_id),
                text::str_opt(prompt_cache_key),
            ) {
                Some(id) => r@ == id && final(self)@ == old(self)@,
                None => exists|now: i64, jitter: i64, fresh: Seq<char>|
                    0 <= now && 0 <= jitter < SESSION_JITTER_MS && util::uuid_text(fresh) && (final(self)@.sessions, r@)
                        == #[trigger] session_for(old(self)@.sessions, api_key@, now, jitter, fresh) && final(self)@
                        == (AppStateV { sessions: final(self)@.sessions, ..old(self)@ }),
            },
    {
        if let Some(id) = long_enough(x_session_id) {
            return id.to_owned();
        }
        if let Some(id) = long_enough(x_claude_code_session_id) {
            return id.to_owned();
        }
        if let Some(id) = long_enough(session_id) {
            return id.to_owned();
        }
        if let Some(id) = long_enough(prompt_cache_key) {
            return id.to_owned();
        }
        self.ensure_session(api_key)
    }

    /// Drops the sessions that have ended at a time, and what is remembered of their keys; gives
    /// the number of those sessions.
    pub fn cleanup_sessions_at(&mut self, now: i64) -> (r: usize)
        requires
            old(self).wf(),
        ensures
            final(self).wf(),
            final(self)@ == old(self)@.cleaned(now),
            r == old(self)@.sessions.dom().len() - final(self)@.sessions.dom().len(),
    {
        let ghost before = self@;
        let total: usize = self.sessions.len();
        let keys = self.sessions.keys();
        let ghost all = text::texts(keys@);
        let ghost sess = self.sessions@;
        let ghost known = self.key_states@;
        let mut i: usize = 0;
        while i < keys.len()
            invariant
                i <= keys@.len(),
                all == text::texts(keys@),
                all.no_duplicates(),
                forall|k: Seq<char>| all.contains(k) <==> #[trigger] sess.contains_key(k),
                self.sessions.wf(),
                self.key_states.wf(),
                self.cfg@ == before.cfg,
                self.limits == before.limits,
                self.profile@ == before.profile,
                infos(self.known@) == before.known,
                self.inflight == before.inflight,
                self.consecutive_timeouts == before.consecutive_timeouts,
                self@.models == before.models,
                forall|k: Seq<char>| #[trigger]
                    self.sessions@.contains_key(k) <==> sess.contains_key(k) && !(all.take(i as int).contains(k)
                        && expired(sess[k]@, now)),
                forall|k: Seq<char>| #[trigger] self.sessions@.contains_key(k) ==> self.sessions@[k] == sess[k],
                forall|k: Seq<char>| #[trigger]
                    self.key_states@.contains_key(k) <==> known.contains_key(k) && !(all.take(i as int).contains(k)
                        && expired(sess[k]@, now)),
                forall|k: Seq<char>| #[trigger]
                    self.key_states@.contains_key(k) ==> self.key_states@[k] == known[k],
            decreases keys.len() - i,
        {
            let ghost next = all.take(i + 1);
            assert(next =~= all.take(i as int).push(all[i as int]));
            assert forall|k: Seq<char>| next.contains(k) <==> all.take(i as int).contains(k) || k == all[i as int] by {
                if all.take(i as int).contains(k) {
                    let j = choose|j: int| 0 <= j < i && all.take(i as int)[j] == k;
                    assert(next[j] == k);
                }
                if k == all[i as int] {
                    assert(next[i as int] == k);
                }
                if next.contains(k) && k != all[i as int] {
                    let j = choose|j: int| 0 <= j < next.len() && next[j] == k;
                    assert(all.take(i as int)[j] == k);
                }
            }
            let ghost key = all[i as int];
            assert(all.contains(key));
            assert(!all.take(i as int).contains(key)) by {
                if all.take(i as int).contains(key) {
                    let j = choose|j: int| 0 <= j < i && all.take(i as int)[j] == key;
                    assert(all[j] == all[i as int]);
                }
            }
            let gone = match self.sessions.get(keys[i].as_str()) {
                Some(e) => now >= e.expires_at,
                None => false,
            };
            if gone {
                self.sessions.remove(keys[i].as_str());
                self.key_states.remove(keys[i].as_str());
            }
            i = i + 1;
        }
        assert(all.take(i as int) =~= all);
        proof {
            assert(self@.sessions =~= before.cleaned(now).sessions);
            assert(self@.key_states =~= before.cleaned(now).key_states);
            assert(before.sessions.dom() =~= sess.dom());
            assert(self@.sessions.dom() =~= self.sessions@.dom());
            vstd::set_lib::lemma_len_subset(self.sessions@.dom(), sess.dom());
        }
        total - self.sessions.len()
    }

    /// Drops the sessions that have ended, and what is remembered of their keys.
    pub fn cleanup_sessions(&mut self) -> (r: usize)
        requires
            old(self).wf(),
        ensures
            final(self).wf(),
            exists|now: i64| 0 <= now && final(self)@ == #[trigger] old(self)@.cleaned(now),
            r == old(self)@.sessions.dom().len() - final(self)@.sessions.dom().len(),
    {
        self.cleanup_sessions_at(now_millis())
    }

    // ── devices ────────────────────────────────────────────────

    /// Whether something is remembered of a key.
    pub fn knows_key(&self, api_key: &str) -> (r: bool)
        ensures
            r == self@.key_states.contains_key(api_key@),
    {
        self.key_states.get(api_key).is_some()
    }

    /// What is remembered of a key; at first that is its fingerprint.
    pub fn get_or_create_key_state(&mut self, api_key: &str) -> (r: KeyState)
        requires
            old(self).wf(),
        ensures
            final(self).wf(),
            final(self)@ == old(self)@.knowing(api_key@),
            r@ == final(self)@.key_states[api_key@],
            r@.fingerprint == old(self)@.fingerprint_for(api_key@),
    {
        if let Some(s) = self.key_states.get(api_key) {
            assert(self@.key_states[api_key@].fingerprint == self@.fingerprint_for(api_key@));
            return s.clone();
        }
        let fingerprint = generate_fingerprint(self.cfg.fingerprint_salt.as_str(), api_key, &self.profile);
        let state = KeyState { fingerprint, next_init_at: 0 };
        let r = state.clone();
        let ghost before = self.key_states@;
        let ghost known = self@;
        self.key_states.insert(api_key, state);
        proof {
            assert(key_views(self.key_states@) =~= key_views(before).insert(api_key@, state@));
            assert forall|k: Seq<char>| self@.key_states.contains_key(k) implies (
            #[trigger] self@.key_states[k]).fingerprint == self@.fingerprint_for(k) by {
                if k != api_key@ {
                    assert(self@.key_states[k] == known.key_states[k]);
                }
            }
        }
        r
    }

    fn announce_headers(&self, api_key: &str) -> (r: Vec<(&'static str, String)>)
        ensures
            cc::headers_of(r@) == init_headers(self@.cfg, api_key@),
    {
        let mut headers = no_headers();
        push_header(&mut headers, "content-type", "application/json".to_owned());
        push_header(&mut headers, "x-cli-environment", "production".to_owned());
        push_header(&mut headers, "authorization", cat("Bearer ", api_key));
        push_header(&mut headers, "x-command-code-version", CC_PROTOCOL_VERSION.to_owned());
        if self.cfg.zdr {
            push_header(&mut headers, "x-cmd-zdr", "1".to_owned());
        }
        headers
    }

    /// The requests that announce the device of a key, where they are due at a time.
    pub fn init_plan_at(&mut self, api_key: &str, now: i64, session_hex: &str) -> (r: Option<InitPlan>)
        requires
            old(self).wf(),
        ensures
            final(self).wf(),
            final(self)@ == old(self)@.knowing(api_key@),
            r is Some <==> old(self)@.init_due(api_key@, now),
            r matches Some(p) ==> p.fingerprint@ == fingerprint_request(
                old(self)@.cfg,
                api_key@,
                old(self)@.fingerprint_for(api_key@),
            ),
            r matches Some(p) ==> p.lifecycle@ == lifecycle_request(
                old(self)@.cfg,
                api_key@,
                old(self)@.fingerprint_for(api_key@),
                session_hex@,
            ),
    {
        let state = self.get_or_create_key_state(api_key);
        if now < state.next_init_at {
            return None;
        }
        let fp = state.fingerprint;
        let mode = if self.cfg.cli_session_mode.as_str().is_empty() {
            "interactive"
        } else {
            self.cfg.cli_session_mode.as_str()
        };
        let os = cat3(component_text(&fp, "platform", "win32"), "-", component_text(&fp, "arch", "x64"));
        let event = Json::obj().with_str("eventType", "cli_session_exists").with(
            "metadata",
            Json::obj().with_str("sessionId", cat("sess_", session_hex).as_str()).with_str(
                "cliVersion",
                CC_PROTOCOL_VERSION,
            ).with_str("mode", mode).with_str("os", os.as_str()),
        );
        Some(
            InitPlan {
                fingerprint: Outgoing {
                    url: cat(self.api_base(), "/alpha/fingerprint/record"),
                    headers: self.announce_headers(api_key),
                    body: json_string(&fp),
                },
                lifecycle: Outgoing {
                    url: cat(self.api_base(), "/alpha/lifecycle-events"),
                    headers: self.announce_headers(api_key),
                    body: json_string(&event),
                },
            },
        )
    }

    /// The requests that announce the device of a key, where they are due; the session is random.
    pub fn init_plan(&mut self, api_key: &str) -> (r: Option<InitPlan>)
        requires
            old(self).wf(),
        ensures
            final(self).wf(),
            final(self)@ == old(self)@.knowing(api_key@),
            exists|now: i64| 0 <= now && (r is Some <==> #[trigger] old(self)@.init_due(api_key@, now)),
            !old(self)@.key_states.contains_key(api_key@) ==> r is Some,
            r matches Some(p) ==> p.fingerprint@ == fingerprint_request(
                old(self)@.cfg,
                api_key@,
                old(self)@.fingerprint_for(api_key@),
            ),
            r matches Some(p) ==> exists|b: Seq<u8>|
                b.len() == 8 && p.lifecycle@ == lifecycle_request(
                    old(self)@.cfg,
                    api_key@,
                    old(self)@.fingerprint_for(api_key@),
                    #[trigger] util::hex_text(b),
                ),
    {
        let hex = random_hex(8);
        self.init_plan_at(api_key, now_millis(), hex.as_str())
    }

    /// Notes that the device of a key was announced at a time.
    pub fn init_done_at(&mut self, api_key: &str, now: i64, jitter: i64)
        requires
            old(self).wf(),
        ensures
            final(self).wf(),
            final(self)@ == old(self)@.announced(api_key@, now, jitter),
    {
        let next: Option<KeyState> = match self.key_states.get(api_key) {
            Some(s) => Some(
                KeyState {
                    fingerprint: s.fingerprint.clone(),
                    next_init_at: now.wrapping_add(INIT_REFRESH_MS.wrapping_add(jitter)),
                },
            ),
            None => None,
        };
        let ghost before = self.key_states@;
        let ghost known = self@;
        if let Some(s) = next {
            assert(known.key_states[api_key@].fingerprint == known.fingerprint_for(api_key@));
            self.key_states.insert(api_key, s);
            proof {
                assert(key_views(self.key_states@) =~= key_views(before).insert(api_key@, s@));
                assert forall|k: Seq<char>| self@.key_states.contains_key(k) implies (
                #[trigger] self@.key_states[k]).fingerprint == self@.fingerprint_for(k) by {
                    if k != api_key@ {
                        assert(self@.key_states[k] == known.key_states[k]);
                    }
                }
            }
        }
    }

    /// Notes that the device of a key was announced now.
    pub fn init_done(&mut self, api_key: &str)
        requires
            old(self).wf(),
        ensures
            final(self).wf(),
            exists|now: i64, jitter: i64|
                0 <= now && 0 <= jitter < INIT_JITTER_MS && final(self)@ == #[trigger] old(self)@.announced(
                    api_key@,
                    now,
                    jitter,
                ),
    {
        let jitter = random_below(INIT_JITTER_MS);
        self.init_done_at(api_key, now_millis(), jitter);
    }

    // ── requests ───────────────────────────────────────────────

    /// The generation request for a body. The headers are those of the client.
    pub fn forward(
        &mut self,
        body: &Json,
        api_key: &str,
        x_session_id: Option<&str>,
        x_claude_code_session_id: Option<&str>,
        session_id: Option<&str>,
        prompt_cache_key: Option<&str>,
        zdr_header: Option<&str>,
    ) -> (r: Outgoing)
        requires
            old(self).wf(),
        ensures
            final(self).wf(),
            exists|session: Seq<char>, trace: Seq<u8>, span: Seq<u8>|
                trace.len() == 16 && span.len() == 8 && r@ == #[trigger] cc::forward_request_of(
                    old(self)@.cfg,
                    body@,
                    api_key@,
                    session,
                    util::traceparent_text(util::hex_text(trace), util::hex_text(span)),
                    text::str_opt(zdr_header),
                ) && (match named_session(
                    text::str_opt(x_session_id),
                    text::str_opt(x_claude_code_session_id),
                    text::str_opt(session_id),
                    text::str_opt(prompt_cache_key),
                ) {
                    Some(id) => session == id && final(self)@ == old(self)@,
                    None => exists|now: i64, jitter: i64, fresh: Seq<char>|
                        0 <= now && 0 <= jitter < SESSION_JITTER_MS && util::uuid_text(fresh) && (
                        final(self)@.sessions,
                        session,
                    ) == #[trigger] session_for(old(self)@.sessions, api_key@, now, jitter, fresh) && final(self)@ == (
                        AppStateV { sessions: final(self)@.sessions, ..old(self)@ }),
                }),
    {
        let traceparent = generate_traceparent();
        let session = self.get_session_id(
            x_session_id,
            x_claude_code_session_id,
            session_id,
            api_key,
            prompt_cache_key,
        );
        let r = forward_request(
            &self.cfg,
            body,
            api_key,
            session.as_str(),
            traceparent.as_str(),
            zdr_header,
        );
        proof {
            let (trace, span) = choose|trace: Seq<u8>, span: Seq<u8>|
                trace.len() == 16 && span.len() == 8 && traceparent@ == util::traceparent_text(
                    #[trigger] util::hex_text(trace),
                    #[trigger] util::hex_text(span),
                );
            assert(r@ == cc::forward_request_of(
                old(self)@.cfg,
                body@,
                api_key@,
                session@,
                util::traceparent_text(util::hex_text(trace), util::hex_text(span)),
                text::str_opt(zdr_header),
            ));
        }
        r
    }

    // ── models ─────────────────────────────────────────────────

    /// Where the list of models comes from, at a time in milliseconds.
    pub fn models_source(&self, api_key: Option<&str>, now: u64) -> (r: ModelsSource)
        ensures
            r@ == self@.models_source(text::str_opt(api_key), now),
    {
        if let Some(c) = &self.models_cache {
            let age: u64 = if now < c.fetched_at {
                0
            } else {
                now - c.fetched_at
            };
            if age < self.cfg.model_refresh_interval_ms {
                return ModelsSource::Known(copy_models(&c.models));
            }
        }
        match api_key {
            Some(k) => if self.cfg.use_provider_models {
                let mut headers = no_headers();
                push_header(&mut headers, "authorization", cat("Bearer ", k));
                push_header(&mut headers, "x-cli-environment", "production".to_owned());
                push_header(&mut headers, "x-command-code-version", CC_PROTOCOL_VERSION.to_owned());
                let body = String::new();
                assert(body@ =~= Seq::<char>::empty());
                ModelsSource::Ask(Outgoing { url: cat(self.api_base(), "/provider/v1/models"), headers, body })
            } else {
                ModelsSource::Known(copy_models(&self.known))
            },
            None => ModelsSource::Known(copy_models(&self.known)),
        }
    }

    /// The models for what the upstream answered at a time: its own where it answered with a
    /// list, which is kept, else those that are known without asking.
    pub fn models_received(&mut self, status: u16, body: &[u8], now: u64) -> (r: Vec<ModelInfo>)
        requires
            old(self).wf(),
        ensures
            final(self).wf(),
            match models_answer(status, body@) {
                Some(m) => infos(r@) == m && final(self)@ == (AppStateV { models: Some((m, now)), ..old(self)@ }),
                None => infos(r@) == old(self)@.known && final(self)@ == old(self)@,
            },
    {
        match models_in_answer(status, body) {
            Some(models) => {
                let kept = copy_models(&models);
                let ghost before = self@;
                self.models_cache = Some(ModelsCache { models: kept, fetched_at: now });
                assert(self@.key_states == before.key_states);
                assert(self@.valid());
                models
            },
            None => copy_models(&self.known),
        }
    }

    // ── counts ─────────────────────────────────────────────────

    /// Takes a slot among the requests in flight; without a limit there is none to take.
    pub fn inflight_acquire(&mut self) -> (r: InflightGuard)
        requires
            old(self).wf(),
        ensures
            final(self).wf(),
            r.limited() == (old(self)@.limits.max_inflight > 0),
            r.acquired() == old(self)@.has_slot(),
            final(self)@ == old(self)@.slot_taken(),
    {
        if self.limits.max_inflight == 0 {
            return InflightGuard { acquired: false, limited: false };
        }
        if self.inflight >= self.limits.max_inflight {
            return InflightGuard { acquired: false, limited: true };
        }
        let ghost before = self@;
        self.inflight = self.inflight + 1;
        assert(self@.key_states == before.key_states);
        assert(self@.valid());
        InflightGuard { acquired: true, limited: true }
    }

    /// Hands a slot back.
    pub fn inflight_release(&mut self, guard: InflightGuard)
        requires
            old(self).wf(),
        ensures
            final(self).wf(),
            final(self)@ == (if guard.acquired() {
                old(self)@.slot_handed_back()
            } else {
                old(self)@
            }),
    {
        let ghost before = self@;
        if guard.acquired && self.inflight > 0 {
            self.inflight = self.inflight - 1;
        }
        assert(self@.key_states == before.key_states);
        assert(self@.valid());
    }

    pub fn inflight_count(&self) -> (r: usize)
        ensures
            r == self@.inflight,
    {
        self.inflight
    }

    /// Counts a timeout, and gives how many there were in a row.
    pub fn bump_consecutive_timeouts(&mut self) -> (r: usize)
        requires
            old(self).wf(),
        ensures
            final(self).wf(),
            r == old(self)@.consecutive_timeouts.wrapping_add(1),
            final(self)@ == (AppStateV { consecutive_timeouts: r, ..old(self)@ }),
    {
        let ghost before = self@;
        self.consecutive_timeouts = self.consecutive_timeouts.wrapping_add(1);
        assert(self@.key_states == before.key_states);
        assert(self@.valid());
        self.consecutive_timeouts
    }

    /// Starts the count of timeouts in a row again.
    pub fn reset_consecutive_timeouts(&mut self)
        requires
            old(self).wf(),
        ensures
            final(self).wf(),
            final(self)@ == (AppStateV { consecutive_timeouts: 0, ..old(self)@ }),
    {
        let ghost before = self@;
        self.consecutive_timeouts = 0;
        assert(self@.key_states == before.key_states);
        assert(self@.valid());
    }
}

/// The seconds since 1970.
pub fn unix_now() -> (r: i64)
    ensures
        0 <= r < util::SECONDS_BOUND,
{
    now_unix()
}

// ── versions ───────────────────────────────────────────────────

/// What the package registry says of the version of the protocol.
#[derive(Debug)]
pub enum VersionNews {
    /// Nothing that can be used.
    Unknown,
    /// The latest version is the one that is spoken here.
    InSync,
    /// The latest version is another.
    Drifted(String),
}

/// The version that an answer of the package registry names.
pub open spec fn latest_version(status: u16, body: Seq<u8>) -> Option<Seq<char>> {
    match succeeded_json(status, body) {
        Some(j) => j.get_nonempty("version"@),
        None => None,
    }
}

pub fn version_news(status: u16, body: &[u8]) -> (r: VersionNews)
    ensures
        match r {
            VersionNews::Unknown => latest_version(status, body@) is None,
            VersionNews::InSync => latest_version(status, body@) == Some(CC_PROTOCOL_VERSION@),
            VersionNews::Drifted(v) => latest_version(status, body@) == Some(v@) && v@ != CC_PROTOCOL_VERSION@,
        },
{
    match json_of_success(status, body) {
        Some(package) => match package.get_nonempty("version") {
            Some(v) => if same(v, CC_PROTOCOL_VERSION) {
                VersionNews::InSync
            } else {
                VersionNews::Drifted(v.to_owned())
            },
            None => VersionNews::Unknown,
        },
        None => VersionNews::Unknown,
    }
}

// ── laws ───────────────────────────────────────────────────────

/// A new session lasts for at least twelve and less than thirteen hours, and all that time the
/// key keeps it.
pub proof fn sessions_last(
    sessions: Map<Seq<char>, SessionV>,
    api_key: Seq<char>,
    now: i64,
    jitter: i64,
    fresh: Seq<char>,
    later: i64,
    later_jitter: i64,
    later_fresh: Seq<char>,
)
    requires
        0 <= now <= i64::MAX - SESSION_DURATION_MS - SESSION_JITTER_MS,
        0 <= jitter < SESSION_JITTER_MS,
        !sessions.contains_key(api_key) || expired(sessions[api_key], now),
    ensures
        ({
            let first = session_for(sessions, api_key, now, jitter, fresh);
            let second = session_for(first.0, api_key, later, later_jitter, later_fresh);
            &&& first.1 == fresh
            &&& later < now + SESSION_DURATION_MS ==> second == (first.0, fresh)
            &&& later >= now + SESSION_DURATION_MS + SESSION_JITTER_MS ==> second.1 == later_fresh
        }),
{
}

/// Keys do not share sessions: what one key gets leaves those of the others as they are.
pub proof fn sessions_are_apart(
    sessions: Map<Seq<char>, SessionV>,
    api_key: Seq<char>,
    other: Seq<char>,
    now: i64,
    jitter: i64,
    fresh: Seq<char>,
)
    requires
        api_key != other,
    ensures
        session_for(sessions, api_key, now, jitter, fresh).0.contains_key(other) == sessions.contains_key(other),
        sessions.contains_key(other) ==> session_for(sessions, api_key, now, jitter, fresh).0[other]
            == sessions[other],
{
}

/// Dropping what has ended keeps every session that lasts and no other, makes no difference to
/// the session that a key gets, and need not be done twice.
pub proof fn cleaning_is_not_noticed(
    s: AppStateV,
    now: i64,
    api_key: Seq<char>,
    jitter: i64,
    fresh: Seq<char>,
)
    requires
        s.valid(),
    ensures
        s.cleaned(now).valid(),
        forall|k: Seq<char>| #[trigger]
            s.cleaned(now).sessions.contains_key(k) <==> s.sessions.contains_key(k) && !expired(s.sessions[k], now),
        session_for(s.cleaned(now).sessions, api_key, now, jitter, fresh).1 == session_for(
            s.sessions,
            api_key,
            now,
            jitter,
            fresh,
        ).1,
        s.cleaned(now).cleaned(now) == s.cleaned(now),
{
    let c = s.cleaned(now);
    assert forall|k: Seq<char>| c.key_states.contains_key(k) implies (#[trigger] c.key_states[k]).fingerprint
        == c.fingerprint_for(k) by {
        assert(c.key_states[k] == s.key_states[k]);
    }
    assert(c.cleaned(now).sessions =~= c.sessions);
    assert(c.cleaned(now).key_states =~= c.key_states);
}

/// A key is known by one fingerprint for as long as the proxy runs, whatever happens to its
/// session, and forgotten and seen again it has the same.
pub proof fn fingerprints_stay(s: AppStateV, api_key: Seq<char>, now: i64, jitter: i64)
    requires
        s.valid(),
    ensures
        s.knowing(api_key).valid(),
        s.knowing(api_key).key_states[api_key].fingerprint == s.fingerprint_for(api_key),
        s.announced(api_key, now, jitter).valid(),
        s.announced(api_key, now, jitter).knowing(api_key).key_states[api_key].fingerprint == s.fingerprint_for(
            api_key,
        ),
        s.cleaned(now).knowing(api_key).key_states[api_key].fingerprint == s.fingerprint_for(api_key),
{
    let a = s.knowing(api_key);
    assert forall|k: Seq<char>| a.key_states.contains_key(k) implies (#[trigger] a.key_states[k]).fingerprint
        == a.fingerprint_for(k) by {
        if k != api_key || s.key_states.contains_key(api_key) {
            assert(a.key_states[k] == s.key_states[k]);
        }
    }
    let b = s.announced(api_key, now, jitter);
    assert forall|k: Seq<char>| b.key_states.contains_key(k) implies (#[trigger] b.key_states[k]).fingerprint
        == b.fingerprint_for(k) by {
        assert(s.key_states[k].fingerprint == s.fingerprint_for(k));
    }
    cleaning_is_not_noticed(s, now, api_key, jitter, api_key);
    let c = s.cleaned(now);
    if c.key_states.contains_key(api_key) {
        assert(c.key_states[api_key].fingerprint == c.fingerprint_for(api_key));
    }
    if b.key_states.contains_key(api_key) {
        assert(b.key_states[api_key].fingerprint == b.fingerprint_for(api_key));
    }
}

/// A device is announced when its key is first seen, and then not again for at least eight hours,
/// but after ten.
pub proof fn announcements_keep_their_distance(s: AppStateV, api_key: Seq<char>, now: i64, jitter: i64, later: i64)
    requires
        0 <= now <= i64::MAX - INIT_REFRESH_MS - INIT_JITTER_MS,
        0 <= jitter < INIT_JITTER_MS,
    ensures
        !s.key_states.contains_key(api_key) ==> s.init_due(api_key, now),
        later < now + INIT_REFRESH_MS ==> !s.knowing(api_key).announced(api_key, now, jitter).init_due(
            api_key,
            later,
        ),
        later >= now + INIT_REFRESH_MS + INIT_JITTER_MS ==> s.knowing(api_key).announced(
            api_key,
            now,
            jitter,
        ).init_due(api_key, later),
{
}

/// Requests in flight never exceed their limit, and a slot that is handed back is one that can be
/// taken.
pub proof fn slots_are_kept(s: AppStateV)
    requires
        s.valid(),
    ensures
        s.slot_taken().valid(),
        s.slot_handed_back().valid(),
        s.has_slot() ==> s.slot_taken().slot_handed_back() == s,
        s.limits.max_inflight > 0 && s.inflight > 0 ==> s.slot_handed_back().has_slot(),
        s.limits.max_inflight > 0 && !s.has_slot() ==> s.inflight == s.limits.max_inflight,
{
    assert(s.slot_taken().key_states == s.key_states);
    assert(s.slot_handed_back().key_states == s.key_states);
}

/// Models that the upstream listed are told, without asking again, until the refresh interval is
/// over.
pub proof fn models_are_kept_for_a_while(
    s: AppStateV,
    m: Seq<(Seq<char>, Seq<char>)>,
    then_at: u64,
    now: u64,
    api_key: Option<Seq<char>>,
)
    requires
        then_at <= now,
    ensures
        ({
            let kept = AppStateV { models: Some((m, then_at)), ..s };
            &&& now - then_at < s.cfg.model_refresh_interval_ms ==> kept.models_source(api_key, now)
                == ModelsSourceV::Known(m)
            &&& now - then_at >= s.cfg.model_refresh_interval_ms && api_key is Some && s.cfg.use_provider_models
                ==> kept.models_source(api_key, now) is Ask
        }),
{
}

/// A step in the life of slots: one is asked for, or one of those that were given is handed back.
pub enum SlotStepV {
    Acquire,
    Release { at: int },
}

/// The state, and for each guard that is not handed back whether it took a slot.
pub struct SlotsV {
    pub state: AppStateV,
    pub guards: Seq<bool>,
}

impl SlotsV {
    pub open spec fn step(self, s: SlotStepV) -> SlotsV {
        match s {
            SlotStepV::Acquire => SlotsV {
                state: self.state.slot_taken(),
                guards: self.guards.push(self.state.has_slot()),
            },
            SlotStepV::Release { at } => if 0 <= at < self.guards.len() {
                SlotsV {
                    state: if self.guards[at] {
                        self.state.slot_handed_back()
                    } else {
                        self.state
                    },
                    guards: self.guards.remove(at),
                }
            } else {
                self
            },
        }
    }

    pub open spec fn steps(self, ss: Seq<SlotStepV>) -> SlotsV
        decreases ss.len(),
    {
        if ss.len() == 0 {
            self
        } else {
            self.steps(ss.drop_last()).step(ss.last())
        }
    }
}

/// How many guards took a slot.
pub open spec fn slots_out(guards: Seq<bool>) -> nat
    decreases guards.len(),
{
    if guards.len() == 0 {
        0
    } else {
        slots_out(guards.drop_last()) + (if guards.last() {
            1nat
        } else {
            0
        })
    }
}

proof fn lemma_slots_out_less(guards: Seq<bool>, at: int)
    requires
        0 <= at < guards.len(),
    ensures
        slots_out(guards) == slots_out(guards.remove(at)) + (if guards[at] {
            1nat
        } else {
            0
        }),
    decreases guards.len(),
{
    if at == guards.len() - 1 {
        assert(guards.remove(at) =~= guards.drop_last());
    } else {
        lemma_slots_out_less(guards.drop_last(), at);
        assert(guards.remove(at).drop_last() =~= guards.drop_last().remove(at));
        assert(guards.remove(at).last() == guards.last());
    }
}

/// In whatever order requests come and go, the count of those in flight is the number of slots
/// that are out: it is never above the limit, nothing is left of it when all guards are handed
/// back, and a request is turned away exactly where the count is at the limit, which leaves it.
/// Without a limit nothing is counted.
pub proof fn slots_are_counted(start: AppStateV, ss: Seq<SlotStepV>)
    requires
        start.inflight == 0,
    ensures
        ({
            let end = SlotsV { state: start, guards: Seq::empty() }.steps(ss);
            let limit = start.limits.max_inflight;
            &&& end.state == AppStateV { inflight: end.state.inflight, ..start }
            &&& end.state.inflight == slots_out(end.guards)
            &&& end.guards.len() == 0 ==> end.state.inflight == 0
            &&& limit > 0 ==> end.state.inflight <= limit
            &&& limit > 0 ==> (!end.state.has_slot() <==> end.state.inflight == limit)
            &&& limit == 0 ==> end.state.inflight == 0 && !end.state.has_slot()
            &&& !end.state.has_slot() ==> end.state.slot_taken() == end.state
        }),
    decreases ss.len(),
{
    if ss.len() > 0 {
        let before = SlotsV { state: start, guards: Seq::empty() }.steps(ss.drop_last());
        slots_are_counted(start, ss.drop_last());
        match ss.last() {
            SlotStepV::Acquire => {
                let g = before.guards.push(before.state.has_slot());
                assert(g.drop_last() =~= before.guards);
            },
            SlotStepV::Release { at } => {
                if 0 <= at < before.guards.len() {
                    lemma_slots_out_less(before.guards, at);
                }
            },
        }
    }
}

} // verus!
