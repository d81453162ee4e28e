//! Configuration: built-in values, then those of the configuration file, then those of the
//! environment.

use vstd::prelude::*;
use vstd::string::*;
use crate::json;
use crate::json::{parse_json, Json, JsonV};
use crate::text;
use crate::text::{
    cat, cat3, cat4, chars_of, decimal_u64, find_at, from_utf8_lossy, index_of_any, last_index, lower, parse_i64, parse_leading, parse_u16,
    same, text_between, trim,
};
use crate::util;
use crate::util::base64_encode;

verus! {

/// The settings of the proxy.
#[derive(Debug)]
pub struct Config {
    pub port: u16,
    pub host: String,
    pub api_key: String,
    pub api_base: String,
    pub project_slug: String,
    pub log_file: String,
    /// Read and kept, but nothing is filtered by it.
    pub log_level: String,
    pub use_provider_models: bool,
    pub model_refresh_interval_ms: u64,
    pub zdr: bool,
    /// The `mode` of a request.
    pub cli_mode: String,
    /// The `mode` in a lifecycle event.
    pub cli_session_mode: String,
    pub fingerprint_salt: String,
    /// The project directory of the device; empty for the built-in one.
    pub device_project_dir: String,
    pub empty_system_placeholder: bool,
    /// The HTTP proxy for upstream requests, such as `http://127.0.0.1:7890`.
    pub upstream_proxy: String,
}

/// The model of the settings.
pub struct ConfigV {
    pub port: u16,
    pub host: Seq<char>,
    pub api_key: Seq<char>,
    pub api_base: Seq<char>,
    pub project_slug: Seq<char>,
    pub log_file: Seq<char>,
    pub log_level: Seq<char>,
    pub use_provider_models: bool,
    pub model_refresh_interval_ms: u64,
    pub zdr: bool,
    pub cli_mode: Seq<char>,
    pub cli_session_mode: Seq<char>,
    pub fingerprint_salt: Seq<char>,
    pub device_project_dir: Seq<char>,
    pub empty_system_placeholder: bool,
    pub upstream_proxy: Seq<char>,
}

/// The environment variables that override settings, each by the field that it overrides.
#[derive(Debug)]
pub struct ConfigEnv {
    /// `PORT`
    pub port: Option<String>,
    /// `HOST`
    pub host: Option<String>,
    /// `CC_API_BASE`
    pub api_base: Option<String>,
    /// `PROJECT_SLUG`
    pub project_slug: Option<String>,
    /// `LOG_FILE`
    pub log_file: Option<String>,
    /// `CC_USE_PROVIDER_MODELS`
    pub use_provider_models: Option<String>,
    /// `CMD_ZDR`
    pub zdr: Option<String>,
    /// `CC_CLI_MODE`
    pub cli_mode: Option<String>,
    /// `CC_CLI_SESSION_MODE`
    pub cli_session_mode: Option<String>,
    /// `CC_FINGERPRINT_SALT`
    pub fingerprint_salt: Option<String>,
    /// `CC_DEVICE_PROJECT_DIR`
    pub device_project_dir: Option<String>,
    /// `CC_EMPTY_SYSTEM_PLACEHOLDER`
    pub empty_system_placeholder: Option<String>,
    /// `CC_UPSTREAM_PROXY`
    pub upstream_proxy: Option<String>,
}

/// The model of those environment variables.
pub struct ConfigEnvV {
    pub port: Option<Seq<char>>,
    pub host: Option<Seq<char>>,
    pub api_base: Option<Seq<char>>,
    pub project_slug: Option<Seq<char>>,
    pub log_file: Option<Seq<char>>,
    pub use_provider_models: Option<Seq<char>>,
    pub zdr: Option<Seq<char>>,
    pub cli_mode: Option<Seq<char>>,
    pub cli_session_mode: Option<Seq<char>>,
    pub fingerprint_salt: Option<Seq<char>>,
    pub device_project_dir: Option<Seq<char>>,
    pub empty_system_placeholder: Option<Seq<char>>,
    pub upstream_proxy: Option<Seq<char>>,
}

impl ConfigEnv {
    pub open spec fn view(&self) -> ConfigEnvV {
        ConfigEnvV {
            port: text::text_opt(self.port),
            host: text::text_opt(self.host),
            api_base: text::text_opt(self.api_base),
            project_slug: text::text_opt(self.project_slug),
            log_file: text::text_opt(self.log_file),
            use_provider_models: text::text_opt(self.use_provider_models),
            zdr: text::text_opt(self.zdr),
            cli_mode: text::text_opt(self.cli_mode),
            cli_session_mode: text::text_opt(self.cli_session_mode),
            fingerprint_salt: text::text_opt(self.fingerprint_salt),
            device_project_dir: text::text_opt(self.device_project_dir),
            empty_system_placeholder: text::text_opt(self.empty_system_placeholder),
            upstream_proxy: text::text_opt(self.upstream_proxy),
        }
    }
}

/// The built-in settings.
pub open spec fn default_config() -> ConfigV {
    ConfigV {
        port: 3000,
        host: "0.0.0.0"@,
        api_key: ""@,
        api_base: "https://api.commandcode.ai"@,
        project_slug: "cc-proxy"@,
        log_file: ""@,
        log_level: "info"@,
        use_provider_models: true,
        model_refresh_interval_ms: 300_000,
        zdr: false,
        cli_mode: "agent"@,
        cli_session_mode: "interactive"@,
        fingerprint_salt: ""@,
        device_project_dir: ""@,
        empty_system_placeholder: true,
        upstream_proxy: ""@,
    }
}

pub open spec fn bool_or(j: JsonV, k: Seq<char>, default: bool) -> bool {
    match j.get(k) {
        Some(v) => match v.as_bool() {
            Some(b) => b,
            None => default,
        },
        None => default,
    }
}

pub open spec fn count_or(j: JsonV, k: Seq<char>, default: u64) -> u64 {
    match j.get(k) {
        Some(v) => match v.as_u64() {
            Some(n) => n,
            None => default,
        },
        None => default,
    }
}

fn get_bool_or(j: &Json, k: &str, default: bool) -> (r: bool)
    ensures
        r == bool_or(j@, k@, default),
{
    match j.get(k) {
        Some(v) => match v.as_bool() {
            Some(b) => b,
            None => default,
        },
        None => default,
    }
}

fn get_count_or(j: &Json, k: &str, default: u64) -> (r: u64)
    ensures
        r == count_or(j@, k@, default),
{
    match j.get(k) {
        Some(v) => match v.as_u64() {
            Some(n) => n,
            None => default,
        },
        None => default,
    }
}

/// The built-in settings with those of a configuration file in their place. Members of another
/// type, and members that are no setting, are ignored; a port is taken modulo 65536.
pub open spec fn file_config(file: JsonV) -> ConfigV {
    let d = default_config();
    ConfigV {
        port: (count_or(file, "port"@, d.port as u64) % 0x1_0000) as u16,
        host: file.str_or("host"@, d.host),
        api_key: file.str_or("apiKey"@, d.api_key),
        api_base: file.str_or("apiBase"@, d.api_base),
        project_slug: file.str_or("projectSlug"@, d.project_slug),
        log_file: file.str_or("logFile"@, d.log_file),
        log_level: file.str_or("logLevel"@, d.log_level),
        use_provider_models: bool_or(file, "useProviderModels"@, d.use_provider_models),
        model_refresh_interval_ms: count_or(file, "modelRefreshIntervalMs"@, d.model_refresh_interval_ms),
        zdr: bool_or(file, "zdr"@, d.zdr),
        cli_mode: file.str_or("cliMode"@, d.cli_mode),
        cli_session_mode: file.str_or("cliSessionMode"@, d.cli_session_mode),
        fingerprint_salt: file.str_or("fingerprintSalt"@, d.fingerprint_salt),
        device_project_dir: file.str_or("deviceProjectDir"@, d.device_project_dir),
        empty_system_placeholder: bool_or(file, "emptySystemPlaceholder"@, d.empty_system_placeholder),
        upstream_proxy: file.str_or("upstreamProxy"@, d.upstream_proxy),
    }
}

pub open spec fn text_or(o: Option<Seq<char>>, default: Seq<char>) -> Seq<char> {
    match o {
        Some(s) => s,
        None => default,
    }
}

/// The port in an environment variable, where it is one.
pub open spec fn port_in(o: Option<Seq<char>>, default: u16) -> u16 {
    match o {
        Some(s) => match text::integer_value(text::trimmed(s), true) {
            Some(n) => if 0 <= n <= 65535 {
                n as u16
            } else {
                default
            },
            None => default,
        },
        None => default,
    }
}

/// Settings with those of the environment in their place.
pub open spec fn env_config(c: ConfigV, e: ConfigEnvV) -> ConfigV {
    ConfigV {
        port: port_in(e.port, c.port),
        host: text_or(e.host, c.host),
        api_base: text_or(e.api_base, c.api_base),
        project_slug: text_or(e.project_slug, c.project_slug),
        log_file: text_or(e.log_file, c.log_file),
        use_provider_models: match e.use_provider_models {
            Some(s) => s != "false"@,
            None => c.use_provider_models,
        },
        zdr: match e.zdr {
            Some(s) => s == "1"@,
            None => c.zdr,
        },
        cli_mode: text_or(e.cli_mode, c.cli_mode),
        cli_session_mode: text_or(e.cli_session_mode, c.cli_session_mode),
        fingerprint_salt: text_or(e.fingerprint_salt, c.fingerprint_salt),
        device_project_dir: text_or(e.device_project_dir, c.device_project_dir),
        empty_system_placeholder: match e.empty_system_placeholder {
            Some(s) => s != "false"@,
            None => c.empty_system_placeholder,
        },
        upstream_proxy: text_or(e.upstream_proxy, c.upstream_proxy),
        ..c
    }
}

/// The settings for the text of a configuration file and an environment.
pub open spec fn loaded_config(file: Option<Seq<char>>, env: ConfigEnvV) -> ConfigV {
    env_config(
        match file {
            Some(t) => match json::json_parsed(t) {
                Some(j) => if j is Object {
                    file_config(j)
                } else {
                    default_config()
                },
                None => default_config(),
            },
            None => default_config(),
        },
        env,
    )
}

/// Whether a configuration file is a JSON object.
pub open spec fn usable_file(file: Option<Seq<char>>) -> bool {
    match file {
        Some(t) => match json::json_parsed(t) {
            Some(j) => j is Object,
            None => false,
        },
        None => false,
    }
}

fn owned_or(o: &Option<String>, default: String) -> (r: String)
    ensures
        r@ == text_or(text::text_opt(*o), default@),
{
    match o {
        Some(s) => s.clone(),
        None => default,
    }
}

fn port_or(o: &Option<String>, default: u16) -> (r: u16)
    ensures
        r == port_in(text::text_opt(*o), default),
{
    match o {
        Some(s) => match parse_i64(trim(s.as_str()).as_str()) {
            Some(n) => if 0 <= n && n <= 65535 {
                n as u16
            } else {
                default
            },
            None => default,
        },
        None => default,
    }
}

fn port_of_count(n: u64) -> (r: u16)
    ensures
        r == n % 0x1_0000,
{
    assert(n as u16 == n % 0x1_0000) by (bit_vector);
    n as u16
}

impl Default for Config {
    fn default() -> (r: Self)
        ensures
            r@ == default_config(),
    {
        Config {
            port: 3000,
            host: "0.0.0.0".to_owned(),
            api_key: "".to_owned(),
            api_base: "https://api.commandcode.ai".to_owned(),
            project_slug: "cc-proxy".to_owned(),
            log_file: "".to_owned(),
            log_level: "info".to_owned(),
            use_provider_models: true,
            model_refresh_interval_ms: 300_000,
            zdr: false,
            cli_mode: "agent".to_owned(),
            cli_session_mode: "interactive".to_owned(),
            fingerprint_salt: "".to_owned(),
            device_project_dir: "".to_owned(),
            empty_system_placeholder: true,
            upstream_proxy: "".to_owned(),
        }
    }
}

impl Clone for Config {
    fn clone(&self) -> (r: Self)
        ensures
            r@ == self@,
    {
        Config {
            port: self.port,
            host: self.host.clone(),
            api_key: self.api_key.clone(),
            api_base: self.api_base.clone(),
            project_slug: self.project_slug.clone(),
            log_file: self.log_file.clone(),
            log_level: self.log_level.clone(),
            use_provider_models: self.use_provider_models,
            model_refresh_interval_ms: self.model_refresh_interval_ms,
            zdr: self.zdr,
            cli_mode: self.cli_mode.clone(),
            cli_session_mode: self.cli_session_mode.clone(),
            fingerprint_salt: self.fingerprint_salt.clone(),
            device_project_dir: self.device_project_dir.clone(),
            empty_system_placeholder: self.empty_system_placeholder,
            upstream_proxy: self.upstream_proxy.clone(),
        }
    }
}

impl Config {
    pub open spec fn view(&self) -> ConfigV {
        ConfigV {
            port: self.port,
            host: self.host@,
            api_key: self.api_key@,
            api_base: self.api_base@,
            project_slug: self.project_slug@,
            log_file: self.log_file@,
            log_level: self.log_level@,
            use_provider_models: self.use_provider_models,
            model_refresh_interval_ms: self.model_refresh_interval_ms,
            zdr: self.zdr,
            cli_mode: self.cli_mode@,
            cli_session_mode: self.cli_session_mode@,
            fingerprint_salt: self.fingerprint_salt@,
            device_project_dir: self.device_project_dir@,
            empty_system_placeholder: self.empty_system_placeholder,
            upstream_proxy: self.upstream_proxy@,
        }
    }

    fn with_file(self, file: &Json) -> (r: Self)
        requires
            self@ == default_config(),
        ensures
            r@ == file_config(file@),
    {
        Config {
            port: port_of_count(get_count_or(file, "port", self.port as u64)),
            host: file.str_or("host", self.host.as_str()).to_owned(),
            api_key: file.str_or("apiKey", self.api_key.as_str()).to_owned(),
            api_base: file.str_or("apiBase", self.api_base.as_str()).to_owned(),
            project_slug: file.str_or("projectSlug", self.project_slug.as_str()).to_owned(),
            log_file: file.str_or("logFile", self.log_file.as_str()).to_owned(),
            log_level: file.str_or("logLevel", self.log_level.as_str()).to_owned(),
            use_provider_models: get_bool_or(file, "useProviderModels", self.use_provider_models),
            model_refresh_interval_ms: get_count_or(file, "modelRefreshIntervalMs", self.model_refresh_interval_ms),
            zdr: get_bool_or(file, "zdr", self.zdr),
            cli_mode: file.str_or("cliMode", self.cli_mode.as_str()).to_owned(),
            cli_session_mode: file.str_or("cliSessionMode", self.cli_session_mode.as_str()).to_owned(),
            fingerprint_salt: file.str_or("fingerprintSalt", self.fingerprint_salt.as_str()).to_owned(),
            device_project_dir: file.str_or("deviceProjectDir", self.device_project_dir.as_str()).to_owned(),
            empty_system_placeholder: get_bool_or(file, "emptySystemPlaceholder", self.empty_system_placeholder),
            upstream_proxy: file.str_or("upstreamProxy", self.upstream_proxy.as_str()).to_owned(),
        }
    }

    fn with_env(self, env: &ConfigEnv) -> (r: Self)
        ensures
            r@ == env_config(self@, env@),
    {
        Config {
            port: port_or(&env.port, self.port),
            host: owned_or(&env.host, self.host),
            api_key: self.api_key,
            api_base: owned_or(&env.api_base, self.api_base),
            project_slug: owned_or(&env.project_slug, self.project_slug),
            log_file: owned_or(&env.log_file, self.log_file),
            log_level: self.log_level,
            use_provider_models: match &env.use_provider_models {
                Some(s) => !same(s.as_str(), "false"),
                None => self.use_provider_models,
            },
            model_refresh_interval_ms: self.model_refresh_interval_ms,
            zdr: match &env.zdr {
                Some(s) => same(s.as_str(), "1"),
                None => self.zdr,
            },
            cli_mode: owned_or(&env.cli_mode, self.cli_mode),
            cli_session_mode: owned_or(&env.cli_session_mode, self.cli_session_mode),
            fingerprint_salt: owned_or(&env.fingerprint_salt, self.fingerprint_salt),
            device_project_dir: owned_or(&env.device_project_dir, self.device_project_dir),
            empty_system_placeholder: match &env.empty_system_placeholder {
                Some(s) => !same(s.as_str(), "false"),
                None => self.empty_system_placeholder,
            },
            upstream_proxy: owned_or(&env.upstream_proxy, self.upstream_proxy),
        }
    }

    /// The settings for the text of the configuration file, where there is one, and the
    /// environment, and whether the file was used.
    pub fn load(file: Option<&str>, env: &ConfigEnv) -> (r: (Self, bool))
        ensures
            r.0@ == loaded_config(text::str_opt(file), env@),
            r.1 == usable_file(text::str_opt(file)),
    {
        if let Some(t) = file {
            if let Some(j) = parse_json(t) {
                if j.is_object() {
                    return (Config::default().with_file(&j).with_env(env), true);
                }
            }
        }
        (Config::default().with_env(env), false)
    }

    /// The upstream address without `/` at its end.
    pub fn api_base_trimmed(&self) -> (r: &str)
        ensures
            r@ == without_slashes(self@.api_base),
    {
        let cs = chars_of(self.api_base.as_str());
        let mut n: usize = cs.len();
        assert(cs@.take(n as int) =~= cs@);
        while n > 0 && cs[n - 1] == '/'
            invariant
                n <= cs@.len(),
                cs@ == self.api_base@,
                without_slashes(cs@.take(n as int)) == without_slashes(cs@),
            decreases n,
        {
            assert(cs@.take(n as int).drop_last() =~= cs@.take(n - 1));
            n = n - 1;
        }
        let r = self.api_base.as_str().substring_char(0, n);
        assert(r@ =~= cs@.take(n as int));
        r
    }
}

/// A text without `/` at its end.
pub open spec fn without_slashes(s: Seq<char>) -> Seq<char>
    decreases s.len(),
{
    if s.len() > 0 && s.last() == '/' {
        without_slashes(s.drop_last())
    } else {
        s
    }
}

/// What the startup log calls the configuration file.
pub fn path_display(p: Option<&str>) -> (r: String)
    ensures
        r@ == (match p {
            Some(s) => s@,
            None => "(built-in defaults)"@,
        }),
{
    match p {
        Some(s) => s.to_owned(),
        None => "(built-in defaults)".to_owned(),
    }
}

// ── limits ─────────────────────────────────────────────────────

/// Limits at run time, which the environment alone sets.
#[derive(Debug, Clone, Copy)]
pub struct Limits {
    pub max_body_size: usize,
    pub stream_idle_timeout_ms: u64,
    pub nonstream_idle_timeout_ms: u64,
    /// Zero stands for no limit.
    pub max_inflight: usize,
    /// Zero stands for no timeout.
    pub client_drain_timeout_ms: u64,
    pub keepalive_timeout_ms: u64,
}

/// The environment variables that set limits.
#[derive(Debug)]
pub struct LimitsEnv {
    /// `CC_MAX_BODY_MB`
    pub max_body_mb: Option<String>,
    /// `CC_STREAM_IDLE_MS`
    pub stream_idle_ms: Option<String>,
    /// `CC_NONSTREAM_IDLE_MS`
    pub nonstream_idle_ms: Option<String>,
    /// `CC_MAX_INFLIGHT`
    pub max_inflight: Option<String>,
    /// `CC_CLIENT_DRAIN_TIMEOUT_MS`
    pub client_drain_timeout_ms: Option<String>,
    /// `CC_KEEPALIVE_TIMEOUT_MS`
    pub keepalive_timeout_ms: Option<String>,
}

/// The positive integer that an environment variable begins with, or the default.
pub open spec fn positive_or(o: Option<Seq<char>>, default: u64) -> u64 {
    match o {
        Some(s) => match text::leading_integer(text::trimmed(s)) {
            Some(n) => if 0 < n <= i64::MAX {
                n as u64
            } else {
                default
            },
            None => default,
        },
        None => default,
    }
}

fn env_positive(o: &Option<String>, default: u64) -> (r: u64)
    ensures
        r == positive_or(text::text_opt(*o), default),
{
    match o {
        Some(s) => match parse_leading(trim(s.as_str()).as_str()) {
            Some(n) => if n > 0 {
                n
            } else {
                default
            },
            None => default,
        },
        None => default,
    }
}

impl Limits {
    pub fn from_env(env: &LimitsEnv) -> (r: Self)
        ensures
            r.max_body_size == (positive_or(text::text_opt(env.max_body_mb), 100) as usize).wrapping_mul(1_048_576),
            r.stream_idle_timeout_ms == positive_or(text::text_opt(env.stream_idle_ms), 30_000),
            r.nonstream_idle_timeout_ms == positive_or(text::text_opt(env.nonstream_idle_ms), 90_000),
            r.max_inflight == positive_or(text::text_opt(env.max_inflight), 0) as usize,
            r.client_drain_timeout_ms == positive_or(text::text_opt(env.client_drain_timeout_ms), 0),
            r.keepalive_timeout_ms == positive_or(text::text_opt(env.keepalive_timeout_ms), 65_000),
    {
        Limits {
            max_body_size: (env_positive(&env.max_body_mb, 100) as usize).wrapping_mul(1_048_576),
            stream_idle_timeout_ms: env_positive(&env.stream_idle_ms, 30_000),
            nonstream_idle_timeout_ms: env_positive(&env.nonstream_idle_ms, 90_000),
            max_inflight: env_positive(&env.max_inflight, 0) as usize,
            client_drain_timeout_ms: env_positive(&env.client_drain_timeout_ms, 0),
            keepalive_timeout_ms: env_positive(&env.keepalive_timeout_ms, 65_000),
        }
    }

    /// Whether a client that takes nothing of what there is for it is given up after so many
    /// milliseconds.
    pub open spec fn gives_up_after(self, blocked_ms: u64) -> bool {
        self.client_drain_timeout_ms > 0 && blocked_ms > self.client_drain_timeout_ms
    }

    pub fn gives_up(&self, blocked_ms: u64) -> (r: bool)
        ensures
            r == self.gives_up_after(blocked_ms),
    {
        self.client_drain_timeout_ms > 0 && blocked_ms > self.client_drain_timeout_ms
    }
}

// ── the upstream proxy ─────────────────────────────────────────

/// An HTTP proxy: where it is, and the value of its `Proxy-Authorization` header.
#[derive(Debug)]
pub struct ProxyTarget {
    pub host: String,
    pub port: u16,
    pub auth: Option<String>,
}

/// The model of a proxy.
pub struct ProxyTargetV {
    pub host: Seq<char>,
    pub port: u16,
    pub auth: Option<Seq<char>>,
}

impl ProxyTarget {
    pub open spec fn view(&self) -> ProxyTargetV {
        ProxyTargetV { host: self.host@, port: self.port, auth: text::text_opt(self.auth) }
    }
}

/// The value of a hexadecimal digit.
pub open spec fn hex_value(b: u8) -> Option<u8> {
    if 48 <= b <= 57 {
        Some((b - 48) as u8)
    } else if 65 <= b <= 70 {
        Some((b - 55) as u8)
    } else if 97 <= b <= 102 {
        Some((b - 87) as u8)
    } else {
        None
    }
}

fn hex_value_of(b: u8) -> (r: Option<u8>)
    ensures
        r == hex_value(b),
        r matches Some(v) ==> v < 16,
{
    if 48 <= b && b <= 57 {
        Some(b - 48)
    } else if 65 <= b && b <= 70 {
        Some(b - 55)
    } else if 97 <= b && b <= 102 {
        Some(b - 87)
    } else {
        None
    }
}

/// The bytes with each `%` and two hexadecimal digits behind it turned into the byte that they
/// stand for.
pub open spec fn percent_decoded(b: Seq<u8>) -> Seq<u8>
    decreases b.len(),
{
    if b.len() == 0 {
        b
    } else if b[0] == 37 && b.len() > 2 && hex_value(b[1]) is Some && hex_value(b[2]) is Some {
        seq![(hex_value(b[1])->0 * 16 + hex_value(b[2])->0) as u8] + percent_decoded(b.skip(3))
    } else {
        seq![b[0]] + percent_decoded(b.skip(1))
    }
}

/// A text with its percent escapes decoded.
pub open spec fn percent_text(s: Seq<char>) -> Seq<char> {
    text::utf8_lossy(percent_decoded(vstd::utf8::encode_utf8(s)))
}

fn percent_decode(s: &str) -> (r: String)
    ensures
        r@ == percent_text(s@),
        vstd::utf8::valid_utf8(percent_decoded(vstd::utf8::encode_utf8(s@))) ==> r@ == vstd::utf8::decode_utf8(
            percent_decoded(vstd::utf8::encode_utf8(s@)),
        ),
{
    let bytes = s.as_bytes();
    let total: usize = bytes.len();
    let mut out: Vec<u8> = Vec::new();
    let mut i: usize = 0;
    assert(bytes@.skip(0) =~= bytes@);
    assert(out@ + percent_decoded(bytes@) =~= percent_decoded(bytes@));
    while i < total
        invariant
            i <= total == bytes@.len(),
            out@ + percent_decoded(bytes@.skip(i as int)) == percent_decoded(bytes@),
        decreases total - i,
    {
        let ghost rest = bytes@.skip(i as int);
        let ghost before = out@;
        assert(rest.skip(1) =~= bytes@.skip(i + 1));
        if bytes[i] == 37 && total - i > 2 {
            assert(rest.skip(3) =~= bytes@.skip(i + 3));
            if let Some(hi) = hex_value_of(bytes[i + 1]) {
                if let Some(lo) = hex_value_of(bytes[i + 2]) {
                    out.push(hi * 16 + lo);
                    i = i + 3;
                    assert(out@ + percent_decoded(bytes@.skip(i as int)) =~= before + percent_decoded(rest));
                    continue ;
                }
            }
        }
        out.push(bytes[i]);
        i = i + 1;
        assert(out@ + percent_decoded(bytes@.skip(i as int)) =~= before + percent_decoded(rest));
    }
    assert(bytes@.skip(i as int) =~= Seq::<u8>::empty());
    assert(out@ + Seq::<u8>::empty() =~= out@);
    from_utf8_lossy(out.as_slice())
}

pub open spec fn bad_url() -> Seq<char> {
    "upstreamProxy is not a valid URL (expected http://host:port)"@
}

/// The header value for the user and the password before the host.
pub open spec fn basic_auth(userinfo: Seq<char>) -> Seq<char> {
    let n = text::first_of(userinfo, ":"@) as int;
    let user = userinfo.take(n);
    let pass = if n < userinfo.len() {
        userinfo.skip(n + 1)
    } else {
        Seq::empty()
    };
    "Basic "@ + util::base64_text(
        vstd::utf8::encode_utf8(percent_text(user) + ":"@ + percent_text(pass)),
    )
}

/// The part of a URL that follows the scheme, up to a path, a query or a fragment.
pub open spec fn authority_of(rest: Seq<char>) -> Seq<char> {
    rest.take(text::first_of(rest, "/?#"@) as int)
}

/// The host and the port of a proxy; without a port it is 80.
pub open spec fn host_port(hostport: Seq<char>) -> Option<(Seq<char>, u16)> {
    match text::last_of(hostport, ':') {
        Some(c) => match text::integer_value(hostport.skip(c + 1), false) {
            Some(n) => if n <= u16::MAX && c > 0 {
                Some((hostport.take(c), n as u16))
            } else {
                None
            },
            None => None,
        },
        None => if hostport.len() > 0 {
            Some((hostport, 80))
        } else {
            None
        },
    }
}

/// The proxy at an authority: what follows the last `@` is its host and port.
pub open spec fn proxy_at(authority: Seq<char>) -> Option<ProxyTargetV> {
    let (userinfo, hostport) = match text::last_of(authority, '@') {
        Some(a) => (Some(authority.take(a)), authority.skip(a + 1)),
        None => (None, authority),
    };
    match host_port(hostport) {
        Some(hp) => Some(
            ProxyTargetV {
                host: hp.0,
                port: hp.1,
                auth: match userinfo {
                    Some(u) => Some(basic_auth(u)),
                    None => None,
                },
            },
        ),
        None => None,
    }
}

/// The proxy that a URL names, or why it names none.
pub open spec fn proxy_of(raw: Seq<char>) -> Result<ProxyTargetV, Seq<char>> {
    match text::find(raw, "://"@) {
        Some(i) => {
            let scheme = raw.take(i);
            if scheme.map_values(|c: char| text::ascii_lower(c)) != "http"@ {
                Err("upstreamProxy only supports http:// (CONNECT) proxies, got "@ + scheme + "://"@)
            } else {
                match proxy_at(authority_of(raw.skip(i + 3))) {
                    Some(t) => Ok(t),
                    None => Err(bad_url()),
                }
            }
        },
        None => Err(bad_url()),
    }
}

fn basic_auth_value(cs: &Vec<char>) -> (r: String)
    ensures
        r@ == basic_auth(cs@),
{
    assert(cs@.skip(0) =~= cs@);
    let n = index_of_any(cs, 0, ":");
    let user = text_between(cs, 0, n);
    assert(user@ =~= cs@.take(n as int));
    let pass = if n < cs.len() {
        let p = text_between(cs, n + 1, cs.len());
        assert(p@ =~= cs@.skip(n + 1));
        p
    } else {
        String::new()
    };
    let both = cat3(percent_decode(user.as_str()).as_str(), ":", percent_decode(pass.as_str()).as_str());
    cat("Basic ", base64_encode(both.as_str().as_bytes()).as_str())
}

fn parse_host_port(cs: &Vec<char>) -> (r: Option<(String, u16)>)
    ensures
        match r {
            Some(hp) => host_port(cs@) == Some((hp.0@, hp.1)),
            None => host_port(cs@) is None,
        },
{
    let total: usize = cs.len();
    match last_index(cs, ':') {
        Some(c) => {
            let p = text_between(cs, c + 1, total);
            assert(p@ =~= cs@.skip(c + 1));
            match parse_u16(p.as_str()) {
                Some(port) => if c > 0 {
                    let h = text_between(cs, 0, c);
                    assert(h@ =~= cs@.take(c as int));
                    Some((h, port))
                } else {
                    None
                },
                None => None,
            }
        },
        None => if cs.len() > 0 {
            let h = text_between(cs, 0, cs.len());
            assert(h@ =~= cs@);
            Some((h, 80))
        } else {
            None
        },
    }
}

fn parse_authority(cs: &Vec<char>) -> (r: Option<ProxyTarget>)
    ensures
        match r {
            Some(t) => proxy_at(cs@) == Some(t@),
            None => proxy_at(cs@) is None,
        },
{
    let total: usize = cs.len();
    let (auth, hostport) = match last_index(cs, '@') {
        Some(a) => {
            let u = chars_of(text_between(cs, 0, a).as_str());
            assert(u@ =~= cs@.take(a as int));
            let h = chars_of(text_between(cs, a + 1, total).as_str());
            assert(h@ =~= cs@.skip(a + 1));
            (Some(basic_auth_value(&u)), h)
        },
        None => {
            let h = chars_of(text_between(cs, 0, cs.len()).as_str());
            assert(h@ =~= cs@);
            (None, h)
        },
    };
    match parse_host_port(&hostport) {
        Some(hp) => Some(ProxyTarget { host: hp.0, port: hp.1, auth }),
        None => None,
    }
}

/// Reads the URL of an HTTP proxy.
pub fn parse_proxy_url(raw: &str) -> (r: Result<ProxyTarget, String>)
    ensures
        match r {
            Ok(t) => proxy_of(raw@) == Ok::<ProxyTargetV, Seq<char>>(t@),
            Err(e) => proxy_of(raw@) == Err::<ProxyTargetV, Seq<char>>(e@),
        },
{
    let bad = "upstreamProxy is not a valid URL (expected http://host:port)";
    let cs = chars_of(raw);
    let total: usize = cs.len();
    proof {
        reveal_strlit("://");
    }
    match find_at(&cs, "://") {
        Some(i) => {
            let scheme = text_between(&cs, 0, i);
            assert(scheme@ =~= raw@.take(i as int));
            if !same(lower(scheme.as_str()).as_str(), "http") {
                return Err(cat3("upstreamProxy only supports http:// (CONNECT) proxies, got ", scheme.as_str(), "://"));
            }
            assert(i + 3 <= total);
            let end = index_of_any(&cs, i + 3, "/?#");
            let authority = chars_of(text_between(&cs, i + 3, end).as_str());
            assert(authority@ =~= authority_of(raw@.skip(i + 3)));
            match parse_authority(&authority) {
                Some(t) => Ok(t),
                None => Err(bad.to_owned()),
            }
        },
        None => Err(bad.to_owned()),
    }
}

/// A proxy URL as logs may show it.
pub open spec fn redacted(raw: Seq<char>) -> Seq<char> {
    if raw.len() == 0 {
        "(direct)"@
    } else {
        match proxy_of(raw) {
            Ok(t) => "http://"@ + t.host + ":"@ + text::decimal(t.port as nat),
            Err(_) => "(invalid upstreamProxy)"@,
        }
    }
}

/// A proxy URL as logs may show it: the host and the port alone.
pub fn redact_proxy_url(raw: &str) -> (r: String)
    ensures
        r@ == redacted(raw@),
{
    if raw.is_empty() {
        return "(direct)".to_owned();
    }
    match parse_proxy_url(raw) {
        Ok(t) => cat4("http://", t.host.as_str(), ":", decimal_u64(t.port as u64).as_str()),
        Err(_) => "(invalid upstreamProxy)".to_owned(),
    }
}

// ── laws ───────────────────────────────────────────────────────

/// Whether a text holds none of the characters.
pub open spec fn free_of(s: Seq<char>, set: Seq<char>) -> bool {
    forall|i: int| 0 <= i < s.len() ==> !set.contains(#[trigger] s[i])
}

proof fn lemma_first_of_none(s: Seq<char>, set: Seq<char>)
    requires
        free_of(s, set),
    ensures
        text::first_of(s, set) == s.len(),
    decreases s.len(),
{
    if s.len() > 0 {
        assert forall|i: int| 0 <= i < s.skip(1).len() implies !set.contains(#[trigger] s.skip(1)[i]) by {
            assert(s.skip(1)[i] == s[i + 1]);
        }
        assert(!set.contains(s[0]));
        lemma_first_of_none(s.skip(1), set);
    }
}

proof fn lemma_last_of_none(s: Seq<char>, c: char)
    requires
        free_of(s, seq![c]),
    ensures
        text::last_of(s, c) is None,
    decreases s.len(),
{
    if s.len() > 0 {
        assert(seq![c].contains(c)) by {
            assert(seq![c][0] == c);
        }
        assert(!seq![c].contains(s[s.len() - 1]));
        assert forall|i: int| 0 <= i < s.drop_last().len() implies !seq![c].contains(#[trigger] s.drop_last()[i]) by {
            assert(s.drop_last()[i] == s[i]);
        }
        lemma_last_of_none(s.drop_last(), c);
    }
}

proof fn lemma_last_of_split(u: Seq<char>, c: char, h: Seq<char>)
    requires
        free_of(h, seq![c]),
    ensures
        text::last_of(u + seq![c] + h, c) == Some(u.len() as int),
    decreases h.len(),
{
    let s = u + seq![c] + h;
    if h.len() > 0 {
        assert(seq![c].contains(c)) by {
            assert(seq![c][0] == c);
        }
        assert(!seq![c].contains(h[h.len() - 1]));
        assert(s.last() == h[h.len() - 1]);
        assert(s.drop_last() =~= u + seq![c] + h.drop_last());
        assert forall|i: int| 0 <= i < h.drop_last().len() implies !seq![c].contains(#[trigger] h.drop_last()[i]) by {
            assert(h.drop_last()[i] == h[i]);
        }
        lemma_last_of_split(u, c, h.drop_last());
    } else {
        assert(s.last() == c);
    }
}

proof fn lemma_scheme(rest: Seq<char>)
    ensures
        text::find("http://"@ + rest, "://"@) == Some(4int),
        ("http://"@ + rest).skip(7) == rest,
        ("http://"@ + rest).take(4) == "http"@,
        ("http://"@ + rest).len() == 7 + rest.len(),
{
    reveal_strlit("http://");
    reveal_strlit("http");
    reveal_strlit("://");
    let s = "http://"@ + rest;
    reveal_with_fuel(text::find, 6);
    assert(s.take(3)[0] == 'h');
    assert(s.skip(1).take(3)[0] == 't');
    assert(s.skip(1).skip(1).take(3)[0] == 't');
    assert(s.skip(1).skip(1).skip(1).take(3)[0] == 'p');
    assert(s.skip(1).skip(1).skip(1).skip(1).take(3) =~= "://"@);
    assert(s.skip(7) =~= rest);
    assert(s.take(4) =~= "http"@);
}

/// What logs show of a proxy is the same with and without a user and a password in its URL: it
/// tells nothing of them.
pub proof fn redaction_hides_credentials(userinfo: Seq<char>, hostport: Seq<char>)
    requires
        free_of(userinfo, "/?#"@),
        free_of(hostport, "/?#"@),
        free_of(hostport, seq!['@']),
    ensures
        redacted("http://"@ + (userinfo + seq!['@'] + hostport)) == redacted("http://"@ + hostport),
{
    let full = userinfo + seq!['@'] + hostport;
    lemma_scheme(full);
    lemma_scheme(hostport);
    reveal_strlit("/?#");
    assert(!"/?#"@.contains('@'));
    assert forall|i: int| 0 <= i < full.len() implies !"/?#"@.contains(#[trigger] full[i]) by {
        if i < userinfo.len() {
            assert(full[i] == userinfo[i]);
        } else if i > userinfo.len() {
            assert(full[i] == hostport[i - userinfo.len() - 1]);
        }
    }
    lemma_first_of_none(full, "/?#"@);
    lemma_first_of_none(hostport, "/?#"@);
    assert(authority_of(full) =~= full);
    assert(authority_of(hostport) =~= hostport);
    lemma_last_of_split(userinfo, '@', hostport);
    lemma_last_of_none(hostport, '@');
    assert(full.skip(userinfo.len() as int + 1) =~= hostport);
}

/// A trailing `/` of the upstream address makes no difference.
pub proof fn trailing_slashes_make_no_difference(base: Seq<char>)
    ensures
        without_slashes(base.push('/')) == without_slashes(base),
        without_slashes(without_slashes(base)) == without_slashes(base),
    decreases base.len(),
{
    assert(base.push('/').drop_last() =~= base);
    assert(base.push('/').last() == '/');
    if base.len() > 0 && base.last() == '/' {
        trailing_slashes_make_no_difference(base.drop_last());
    }
}

/// A proxy is found at its host and port, with its user and password where it has them; without
/// them it is shown as its URL stands, and with them it is shown without them.
pub proof fn hosts_and_ports_are_shown(userinfo: Seq<char>, host: Seq<char>, port: u16)
    requires
        free_of(userinfo, "/?#"@),
        host.len() > 0,
        free_of(host, "/?#@:"@),
    ensures
        ({
            let hostport = host + ":"@ + text::decimal(port as nat);
            &&& redacted("http://"@ + hostport) == "http://"@ + hostport
            &&& redacted("http://"@ + (userinfo + seq!['@'] + hostport)) == "http://"@ + hostport
            &&& proxy_of("http://"@ + hostport) == Ok::<ProxyTargetV, Seq<char>>(
                ProxyTargetV { host, port, auth: None },
            )
            &&& proxy_of("http://"@ + (userinfo + seq!['@'] + hostport)) == Ok::<ProxyTargetV, Seq<char>>(
                ProxyTargetV { host, port, auth: Some(basic_auth(userinfo)) },
            )
        }),
{
    reveal_strlit("/?#@:");
    reveal_strlit("/?#");
    reveal_strlit(":");
    reveal_strlit("http");
    let d = text::decimal(port as nat);
    let hostport = host + ":"@ + d;
    assert(":"@ =~= seq![':']);
    text::decimals_are_read_back(port as nat);
    let all = "/?#@:"@;
    assert(all[0] == '/' && all[1] == '?' && all[2] == '#' && all[3] == '@' && all[4] == ':');
    let few = "/?#"@;
    assert(few =~= seq!['/', '?', '#']);
    assert forall|i: int| 0 <= i < hostport.len() implies !few.contains(#[trigger] hostport[i]) && !seq!['@'].contains(
        hostport[i],
    ) by {
        if i < host.len() {
            assert(hostport[i] == host[i]);
            assert(!all.contains(host[i]));
        } else if i > host.len() {
            assert(hostport[i] == d[i - host.len() - 1]);
            assert(text::is_digit_char(d[i - host.len() - 1]));
        } else {
            assert(hostport[i] == ':');
        }
    }
    assert forall|i: int| 0 <= i < d.len() implies !seq![':'].contains(#[trigger] d[i]) by {
        assert(text::is_digit_char(d[i]));
    }
    lemma_scheme(hostport);
    lemma_first_of_none(hostport, few);
    assert(authority_of(hostport) =~= hostport);
    lemma_last_of_none(hostport, '@');
    lemma_last_of_split(host, ':', d);
    assert(hostport =~= host + seq![':'] + d);
    assert(hostport.skip(host.len() as int + 1) =~= d);
    assert(hostport.take(host.len() as int) =~= host);
    let scheme = "http"@;
    assert(scheme.map_values(|c: char| text::ascii_lower(c)) =~= scheme) by {
        assert(scheme[0] == 'h' && scheme[1] == 't' && scheme[2] == 't' && scheme[3] == 'p');
    }
    assert("http://"@ + host + ":"@ + d =~= "http://"@ + hostport);
    redaction_hides_credentials(userinfo, hostport);
    let full = userinfo + seq!['@'] + hostport;
    lemma_scheme(full);
    assert forall|i: int| 0 <= i < full.len() implies !few.contains(#[trigger] full[i]) by {
        if i < userinfo.len() {
            assert(full[i] == userinfo[i]);
        } else if i > userinfo.len() {
            assert(full[i] == hostport[i - userinfo.len() - 1]);
        }
    }
    lemma_first_of_none(full, few);
    assert(authority_of(full) =~= full);
    lemma_last_of_split(userinfo, '@', hostport);
    assert(full.skip(userinfo.len() as int + 1) =~= hostport);
    assert(full.take(userinfo.len() as int) =~= userinfo);
}

proof fn lemma_first_scheme(scheme: Seq<char>, rest: Seq<char>)
    requires
        free_of(scheme, ":"@),
    ensures
        text::find(scheme + "://"@ + rest, "://"@) == Some(scheme.len() as int),
    decreases scheme.len(),
{
    reveal_strlit(":");
    reveal_strlit("://");
    let s = scheme + "://"@ + rest;
    if scheme.len() > 0 {
        let colon = ":"@;
        assert(colon[0] == ':');
        assert(colon.contains(':'));
        assert(!colon.contains(scheme[0]));
        assert(s.take(3)[0] == scheme[0]);
        assert(s.skip(1) =~= scheme.skip(1) + "://"@ + rest);
        assert forall|i: int| 0 <= i < scheme.skip(1).len() implies !colon.contains(#[trigger] scheme.skip(1)[i]) by {
            assert(scheme.skip(1)[i] == scheme[i + 1]);
        }
        lemma_first_scheme(scheme.skip(1), rest);
    } else {
        assert(s.take(3) =~= "://"@);
    }
}

/// A proxy of another scheme than HTTP is refused, and the scheme is named.
pub proof fn other_schemes_are_refused(scheme: Seq<char>, rest: Seq<char>)
    requires
        free_of(scheme, ":"@),
        scheme.map_values(|c: char| text::ascii_lower(c)) != "http"@,
    ensures
        proxy_of(scheme + "://"@ + rest) == Err::<ProxyTargetV, Seq<char>>(
            "upstreamProxy only supports http:// (CONNECT) proxies, got "@ + scheme + "://"@,
        ),
{
    lemma_first_scheme(scheme, rest);
    assert((scheme + "://"@ + rest).take(scheme.len() as int) =~= scheme);
}

proof fn lemma_encode_sum(a: Seq<char>, b: Seq<char>)
    ensures
        vstd::utf8::encode_utf8(a + b) == vstd::utf8::encode_utf8(a) + vstd::utf8::encode_utf8(b),
    decreases a.len(),
{
    if a.len() == 0 {
        assert(a + b =~= b);
        assert(vstd::utf8::encode_utf8(a) + vstd::utf8::encode_utf8(b) =~= vstd::utf8::encode_utf8(b));
    } else {
        assert((a + b).drop_first() =~= a.drop_first() + b);
        lemma_encode_sum(a.drop_first(), b);
        assert(vstd::utf8::encode_utf8(a + b) =~= vstd::utf8::encode_utf8(a) + vstd::utf8::encode_utf8(b));
    }
}

/// The bytes of a text with its percent escapes decoded.
pub open spec fn percent_bytes(s: Seq<char>) -> Seq<u8> {
    percent_decoded(vstd::utf8::encode_utf8(s))
}

/// A user and a password whose escapes stand for well-formed UTF-8 are sent to the proxy as just
/// the bytes that they stand for.
pub proof fn credentials_are_decoded(user: Seq<char>, pass: Seq<char>)
    requires
        free_of(user, ":"@),
        vstd::utf8::valid_utf8(percent_bytes(user)),
        vstd::utf8::valid_utf8(percent_bytes(pass)),
    ensures
        percent_text(user) == vstd::utf8::decode_utf8(percent_bytes(user)),
        percent_text(pass) == vstd::utf8::decode_utf8(percent_bytes(pass)),
        basic_auth(user + ":"@ + pass) == "Basic "@ + util::base64_text(
            percent_bytes(user) + seq![58u8] + percent_bytes(pass),
        ),
{
    broadcast use vstd::utf8::decode_utf8_encode_utf8;

    reveal_strlit(":");
    let colon = ":"@;
    assert(colon =~= seq![':']);
    let all = user + colon + pass;
    lemma_first_of_split(user, colon, pass);
    assert(all.take(user.len() as int) =~= user);
    assert(all.skip(user.len() as int + 1) =~= pass);
    vstd::utf8::is_ascii_chars_encode_utf8(colon);
    assert(vstd::utf8::encode_utf8(colon) =~= seq![58u8]) by {
        assert(colon[0] as u8 == 58u8);
    }
    lemma_encode_sum(percent_text(user) + colon, percent_text(pass));
    lemma_encode_sum(percent_text(user), colon);
}

proof fn lemma_first_of_split(a: Seq<char>, set: Seq<char>, b: Seq<char>)
    requires
        free_of(a, set),
        set.len() == 1,
    ensures
        text::first_of(a + set + b, set) == a.len(),
    decreases a.len(),
{
    let s = a + set + b;
    if a.len() == 0 {
        assert(s[0] == set[0]);
        assert(set.contains(s[0]));
    } else {
        assert(s[0] == a[0]);
        assert(!set.contains(a[0]));
        assert(s.skip(1) =~= a.skip(1) + set + b);
        assert forall|i: int| 0 <= i < a.skip(1).len() implies !set.contains(#[trigger] a.skip(1)[i]) by {
            assert(a.skip(1)[i] == a[i + 1]);
        }
        lemma_first_of_split(a.skip(1), set, b);
    }
}

proof fn lemma_scalar_bytes(c: char)
    requires
        c != '%',
    ensures
        forall|i: int|
            0 <= i < vstd::utf8::encode_scalar(c as u32).len() ==> #[trigger] vstd::utf8::encode_scalar(c as u32)[i]
                != 37,
{
    let n = c as u32;
    assert(n <= 0x7f && n != 37 ==> (n & 0x7f) as u8 != 37) by (bit_vector);
    assert(0xc0u8 | ((n >> 6) & 0x1f) as u8 >= 128) by (bit_vector);
    assert(0xe0u8 | ((n >> 12) & 0x0f) as u8 >= 128) by (bit_vector);
    assert(0xf0u8 | ((n >> 18) & 0x7) as u8 >= 128) by (bit_vector);
    assert(0x80u8 | (n & 0x3f) as u8 >= 128) by (bit_vector);
    assert(0x80u8 | ((n >> 6) & 0x3f) as u8 >= 128) by (bit_vector);
    assert(0x80u8 | ((n >> 12) & 0x3f) as u8 >= 128) by (bit_vector);
}

proof fn lemma_no_percent(s: Seq<char>)
    requires
        free_of(s, seq!['%']),
    ensures
        forall|i: int|
            0 <= i < vstd::utf8::encode_utf8(s).len() ==> #[trigger] vstd::utf8::encode_utf8(s)[i] != 37,
    decreases s.len(),
{
    if s.len() > 0 {
        assert(seq!['%'][0] == '%');
        assert(!seq!['%'].contains(s[0]));
        assert forall|i: int| 0 <= i < s.drop_first().len() implies !seq!['%'].contains(#[trigger] s.drop_first()[i]) by {
            assert(s.drop_first()[i] == s[i + 1]);
        }
        lemma_no_percent(s.drop_first());
        let c = s[0];
        lemma_scalar_bytes(c);
        let head = vstd::utf8::encode_scalar(c as u32);
        let all = vstd::utf8::encode_utf8(s);
        let rest = vstd::utf8::encode_utf8(s.drop_first());
        assert(all == head + rest);
        assert forall|i: int| 0 <= i < all.len() implies #[trigger] all[i] != 37 by {
            if i < head.len() {
                assert(all[i] == head[i]);
            } else {
                assert(all[i] == rest[i - head.len()]);
            }
        }
    }
}

proof fn lemma_nothing_decoded(b: Seq<u8>)
    requires
        forall|i: int| 0 <= i < b.len() ==> #[trigger] b[i] != 37,
    ensures
        percent_decoded(b) == b,
    decreases b.len(),
{
    if b.len() > 0 {
        assert(b[0] != 37);
        assert forall|i: int| 0 <= i < b.skip(1).len() implies #[trigger] b.skip(1)[i] != 37 by {
            assert(b.skip(1)[i] == b[i + 1]);
        }
        lemma_nothing_decoded(b.skip(1));
        assert(seq![b[0]] + b.skip(1) =~= b);
    }
}

/// A user or a password without a percent sign is taken as it stands.
pub proof fn plain_credentials_stay(s: Seq<char>)
    requires
        free_of(s, seq!['%']),
    ensures
        percent_text(s) == s,
{
    broadcast use vstd::utf8::encode_utf8_valid_utf8;
    broadcast use vstd::utf8::encode_utf8_decode_utf8;

    lemma_no_percent(s);
    lemma_nothing_decoded(vstd::utf8::encode_utf8(s));
}

} // verus!
