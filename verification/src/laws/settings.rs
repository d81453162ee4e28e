//! Settings come from the environment first, then from the configuration file.

use vstd::prelude::*;
use crate::config;
use crate::config::ConfigEnvV;
use crate::json;
use crate::json::JsonV;
use crate::laws::events as said;
use crate::laws::members;
use crate::text;
use crate::text::Class;

verus! {

/// The object in a configuration file; an empty one where there is none.
pub open spec fn object_in(file: Option<Seq<char>>) -> JsonV {
    match file {
        Some(t) => match json::json_parsed(t) {
            Some(JsonV::Object(es)) => JsonV::Object(es),
            _ => JsonV::Object(Seq::empty()),
        },
        None => JsonV::Object(Seq::empty()),
    }
}

/// A setting that is a text: as the environment has it, else as the file has it, else another.
pub open spec fn chosen(env: Option<Seq<char>>, file: JsonV, k: Seq<char>, other: Seq<char>) -> Seq<char> {
    match env {
        Some(s) => s,
        None => members::text_or(file, k, other),
    }
}

/// What a file says of a switch, or another.
pub open spec fn switched(file: JsonV, k: Seq<char>, other: bool) -> bool {
    match file.get(k) {
        Some(JsonV::Bool(b)) => b,
        _ => other,
    }
}

/// Each setting is that of the environment where it has one, else that of the file, else the one
/// that is built in.
pub proof fn environments_come_first(text: Option<Seq<char>>, env: ConfigEnvV)
    ensures
        ({
            let c = config::loaded_config(text, env);
            let file = object_in(text);
            &&& c.host == chosen(env.host, file, "host"@, "0.0.0.0"@)
            &&& c.api_base == chosen(env.api_base, file, "apiBase"@, "https://api.commandcode.ai"@)
            &&& c.project_slug == chosen(env.project_slug, file, "projectSlug"@, "cc-proxy"@)
            &&& c.log_file == chosen(env.log_file, file, "logFile"@, ""@)
            &&& c.cli_mode == chosen(env.cli_mode, file, "cliMode"@, "agent"@)
            &&& c.cli_session_mode == chosen(env.cli_session_mode, file, "cliSessionMode"@, "interactive"@)
            &&& c.fingerprint_salt == chosen(env.fingerprint_salt, file, "fingerprintSalt"@, ""@)
            &&& c.device_project_dir == chosen(env.device_project_dir, file, "deviceProjectDir"@, ""@)
            &&& c.upstream_proxy == chosen(env.upstream_proxy, file, "upstreamProxy"@, ""@)
            &&& c.api_key == members::text_or(file, "apiKey"@, ""@)
            &&& c.log_level == members::text_or(file, "logLevel"@, "info"@)
            &&& c.use_provider_models == (match env.use_provider_models {
                Some(s) => s != "false"@,
                None => switched(file, "useProviderModels"@, true),
            })
            &&& c.zdr == (match env.zdr {
                Some(s) => s == "1"@,
                None => switched(file, "zdr"@, false),
            })
            &&& c.empty_system_placeholder == (match env.empty_system_placeholder {
                Some(s) => s != "false"@,
                None => switched(file, "emptySystemPlaceholder"@, true),
            })
        }),
{
}

proof fn lemma_decimal(n: nat)
    ensures
        text::trimmed(text::decimal(n)) == text::decimal(n),
        text::decimal(n).len() > 0,
        forall|i: int| 0 <= i < text::decimal(n).len() ==> '0' <= #[trigger] text::decimal(n)[i] <= '9',
{
    text::decimals_are_read_back(n);
    let d = text::decimal(n);
    assert forall|i: int| 0 <= i < d.len() implies '0' <= #[trigger] d[i] <= '9' by {
        assert(text::is_digit_char(d[i]));
    }
    assert(d =~= Seq::<char>::empty() + d + Seq::<char>::empty());
    assert('0' <= d[0] <= '9' && '0' <= d.last() <= '9');
    said::white_space_is_trimmed(Seq::empty(), d, Seq::empty());
}

/// A port is that of the environment where it names one, else that of the file, else the one that
/// is built in.
pub proof fn ports_are_read(file: Option<Seq<char>>, env: ConfigEnvV, n: u16, m: u16)
    ensures
        env.port == Some(text::decimal(n as nat)) ==> config::loaded_config(file, env).port == n,
        env.port is None && object_in(file).get("port"@) == Some(json::int_json(m as int)) ==> config::loaded_config(
            file,
            env,
        ).port == m,
        env.port is None && object_in(file).get("port"@) is None ==> config::loaded_config(file, env).port == 3000,
{
    lemma_decimal(n as nat);
    text::decimals_are_read_back(n as nat);
}

/// How often the list of models is asked for is as the file has it, else every five minutes.
pub proof fn intervals_are_read(file: Option<Seq<char>>, env: ConfigEnvV, n: u64)
    ensures
        object_in(file).get("modelRefreshIntervalMs"@) == Some(json::int_json(n as int)) ==> config::loaded_config(
            file,
            env,
        ).model_refresh_interval_ms == n,
        object_in(file).get("modelRefreshIntervalMs"@) is None ==> config::loaded_config(
            file,
            env,
        ).model_refresh_interval_ms == 300_000,
{
}

proof fn lemma_all_digits(d: Seq<char>)
    requires
        forall|i: int| 0 <= i < d.len() ==> text::is_digit_char(#[trigger] d[i]),
    ensures
        text::run_length(d, Class::Digit) == d.len(),
    decreases d.len(),
{
    if d.len() > 0 {
        assert(text::is_digit_char(d[0]));
        assert forall|i: int| 0 <= i < d.skip(1).len() implies text::is_digit_char(#[trigger] d.skip(1)[i]) by {
            assert(d.skip(1)[i] == d[i + 1]);
        }
        lemma_all_digits(d.skip(1));
    }
}

/// A limit is the number that the environment names, and without one the limit that is built in.
pub proof fn limits_are_read(n: u64, other: u64)
    ensures
        0 < n <= i64::MAX ==> config::positive_or(Some(text::decimal(n as nat)), other) == n,
        config::positive_or(Some(text::decimal(0)), other) == other,
        config::positive_or(None, other) == other,
{
    lemma_decimal(n as nat);
    lemma_decimal(0);
    text::decimals_are_read_back(n as nat);
    text::decimals_are_read_back(0);
    let d = text::decimal(n as nat);
    let z = text::decimal(0);
    assert forall|i: int| 0 <= i < d.len() implies text::is_digit_char(#[trigger] d[i]) by {}
    assert forall|i: int| 0 <= i < z.len() implies text::is_digit_char(#[trigger] z[i]) by {}
    lemma_all_digits(d);
    lemma_all_digits(z);
    assert('0' <= d[0] <= '9' && '0' <= z[0] <= '9');
    assert(d.take(d.len() as int) =~= d);
    assert(z.take(z.len() as int) =~= z);
}

} // verus!
