use commandcode_proxy::cc::{build_cc_request, build_cc_request_on, forward_request, CC_PROTOCOL_VERSION};
use commandcode_proxy::config::Config;
use commandcode_proxy::fingerprint::DeviceProfile;
use commandcode_proxy::json::{json_string, parse_json, Json};
use commandcode_proxy::translate::anthropic_request::convert_anthropic_to_openai;
use commandcode_proxy::translate::responses_request::{convert_responses_to_chat, convert_responses_with};

fn parsed(s: &str) -> Json {
    parse_json(s).expect("the test's JSON is valid")
}

fn built(req: &str) -> Json {
    build_cc_request_on(&Config::default(), &DeviceProfile::new(""), &parsed(req), "2025-01-02")
}

fn params(req: &str) -> Json {
    built(req).get("params").unwrap().clone()
}

fn member(j: &Json, k: &str) -> String {
    match j.get(k) {
        Some(v) => json_string(v),
        None => "(absent)".to_string(),
    }
}

// ── upstream requests ──────────────────────────────────────────

#[test]
fn a_plain_request_is_wrapped() {
    assert_eq!(
        json_string(&built(r#"{"model":"m","messages":[{"role":"user","content":"hi"}]}"#)),
        concat(&[
            r#"{"config":{"workingDir":"C:\\Users\\dev\\projects\\app","date":"2025-01-02","environment":"win32","#,
            r#""structure":[],"isGitRepo":false,"currentBranch":"","mainBranch":"","gitStatus":"","recentCommits":[]},"#,
            r#""memory":null,"taste":null,"skills":null,"permissionMode":"standard","mode":"agent","#,
            r#""params":{"model":"m","messages":[{"role":"user","content":[{"type":"text","text":"hi"}]}],"#,
            r#""max_tokens":64000,"stream":true,"system":[{"type":"text","text":" "}],"tools":[]}}"#,
        ])
    );
}

fn concat(parts: &[&str]) -> String {
    parts.concat()
}

#[test]
fn the_current_date_is_used() {
    let j = build_cc_request(&Config::default(), &DeviceProfile::new(""), &parsed("{}"));
    let d = j.get2("config", "date").and_then(|d| d.as_str().map(|s| s.to_string())).unwrap();
    assert_eq!(d.len(), 10);
    assert!(d.starts_with("20"));
    assert_eq!(j.get2("params", "model").and_then(|m| m.as_str()), Some("deepseek/deepseek-v4-flash"));
}

#[test]
fn system_messages_become_blocks() {
    let p = params(
        r#"{"messages":[{"role":"system","content":"a"},{"role":"user","content":"u"},
            {"role":"developer","content":[{"type":"text","text":"b","cache_control":{"type":"ephemeral"}},{"type":"text","text":""},"x"]},
            {"role":"system","content":""}]}"#,
    );
    assert_eq!(
        member(&p, "system"),
        r#"[{"type":"text","text":"a\n"},{"type":"text","text":"b","cache_control":{"type":"ephemeral"}}]"#
    );
    assert_eq!(member(&p, "messages"), r#"[{"role":"user","content":[{"type":"text","text":"u"}]}]"#);
}

#[test]
fn a_cache_key_marks_the_last_block() {
    let p = params(
        r#"{"prompt_cache_key":"k","messages":[{"role":"system","content":"a"},{"role":"system","content":"b"}]}"#,
    );
    assert_eq!(
        member(&p, "system"),
        r#"[{"type":"text","text":"a\n"},{"type":"text","text":"b","cache_control":{"type":"ephemeral"}}]"#
    );
    let p = params(
        r#"{"prompt_cache_key":"k","messages":[{"role":"system","content":[{"type":"text","text":"a","cache_control":{"type":"x"}}]},{"role":"system","content":"b"}]}"#,
    );
    assert_eq!(
        member(&p, "system"),
        r#"[{"type":"text","text":"a\n","cache_control":{"type":"x"}},{"type":"text","text":"b"}]"#
    );
}

#[test]
fn no_placeholder_without_the_setting() {
    let mut c = Config::default();
    c.empty_system_placeholder = false;
    let j = build_cc_request_on(&c, &DeviceProfile::new(""), &parsed("{}"), "d");
    assert!(j.get2("params", "system").is_none());
}

#[test]
fn output_tokens_are_bounded() {
    for (given, want) in [
        ("10", "10"),
        ("200001", "200000"),
        ("0", "64000"),
        ("null", "64000"),
        ("\"5\"", "64000"),
        ("7.9", "7"),
        ("-3", "-3"),
    ] {
        let p = params(&format!("{{\"max_tokens\":{}}}", given));
        assert_eq!(member(&p, "max_tokens"), want, "{}", given);
    }
}

#[test]
fn calls_and_their_results_are_sent() {
    let p = params(
        r#"{"messages":[
            {"role":"assistant","content":"t","reasoning_content":"r","tool_calls":[{"id":"c1","function":{"name":"bash_output","arguments":"{\"a\":1}"}}]},
            {"role":"tool","tool_call_id":"c1","content":[{"type":"text","text":"x"},{"type":"image"},{"type":"text","text":"y"}]},
            {"role":"tool","tool_call_id":"c2","content":{"k":1}},
            {"role":"odd","content":"o"}]}"#,
    );
    assert_eq!(
        member(&p, "messages"),
        concat(&[
            r#"[{"role":"assistant","content":[{"type":"reasoning","text":"r"},{"type":"text","text":"t"},"#,
            r#"{"type":"tool-call","toolCallId":"c1","toolName":"bash_output","input":{"a":1}}]},"#,
            r#"{"role":"tool","content":[{"type":"tool-result","toolCallId":"c1","toolName":"bash_output","output":{"type":"text","value":"x\ny"}}]},"#,
            r#"{"role":"tool","content":[{"type":"tool-result","toolCallId":"c2","toolName":"","output":{"type":"text","value":"{\"k\":1}"}}]},"#,
            r#"{"role":"user","content":[{"type":"text","text":"o"}]}]"#,
        ])
    );
}

#[test]
fn tools_and_their_choice_are_sent() {
    let p = params(
        r#"{"tools":[{"type":"function","function":{"name":"tool_search","description":"d","parameters":{"type":"object"}}},{"name":"n","input_schema":{"x":1}},{}],
            "tool_choice":"required","temperature":0.5,"reasoning_effort":"high","parallel_tool_calls":false}"#,
    );
    assert_eq!(
        member(&p, "tools"),
        concat(&[
            r#"[{"name":"search_tools","description":"d","input_schema":{"type":"object"}},"#,
            r#"{"name":"n","description":"","input_schema":{"x":1}},"#,
            r#"{"name":"","description":"","input_schema":{"type":"object","properties":{}}}]"#,
        ])
    );
    assert_eq!(member(&p, "tool_choice"), r#"{"type":"any"}"#);
    assert_eq!(member(&p, "temperature"), "0.5");
    assert_eq!(member(&p, "reasoning_effort"), "\"high\"");
    assert_eq!(member(&p, "parallel_tool_calls"), "false");
    for (given, want) in [
        ("\"none\"", r#"{"type":"none"}"#),
        ("\"auto\"", r#"{"type":"auto"}"#),
        (r#"{"type":"function","function":{"name":"f"}}"#, r#"{"type":"tool","name":"f"}"#),
        (r#"{"type":"x"}"#, r#"{"type":"x"}"#),
    ] {
        let p = params(&format!("{{\"tool_choice\":{}}}", given));
        assert_eq!(member(&p, "tool_choice"), want);
    }
}

// ── what is sent upstream ──────────────────────────────────────

fn header<'a>(o: &'a commandcode_proxy::cc::Outgoing, name: &str) -> Option<&'a str> {
    o.headers.iter().find(|h| h.0 == name).map(|h| h.1.as_str())
}

#[test]
fn a_session_that_is_a_uuid_is_the_thread() {
    let mut c = Config::default();
    c.api_base = "https://up/".to_string();
    let p = DeviceProfile::new("");
    let body = build_cc_request_on(&c, &p, &parsed("{}"), "d");
    let id = "01234567-89AB-4def-8123-456789abcdef";
    let o = forward_request(&c, &body, "user_k", id, "00-t", None);
    assert_eq!(o.url, "https://up/alpha/generate");
    let sent = parsed(&o.body);
    assert_eq!(sent.get_str("threadId"), Some(id));
    let at = |k: &str| o.body.find(&format!("\"{}\":", k)).unwrap();
    assert!(at("permissionMode") < at("threadId") && at("threadId") < at("mode") && at("mode") < at("params"));
    assert_eq!(header(&o, "x-session-id"), Some(id));
    assert_eq!(header(&o, "user-agent"), Some("cli"));
    assert_eq!(header(&o, "x-command-code-version"), Some(CC_PROTOCOL_VERSION));
    assert_eq!(header(&o, "x-project-slug"), Some("cc-proxy"));
    c.project_slug = "My Project".to_string();
    let o = forward_request(&c, &body, "user_k", id, "00-t", None);
    assert_eq!(header(&o, "x-project-slug"), Some("My Project"));
    assert_eq!(header(&o, "authorization"), Some("Bearer user_k"));
    assert_eq!(header(&o, "traceparent"), Some("00-t"));
    assert_eq!(header(&o, "x-cmd-zdr"), None);
}

#[test]
fn another_session_is_no_thread() {
    let c = Config::default();
    let p = DeviceProfile::new("");
    let body = build_cc_request_on(&c, &p, &parsed("{}"), "d");
    let o = forward_request(&c, &body, "user_k", "my-session", "00-t", Some("1"));
    assert_eq!(o.body, json_string(&body));
    assert_eq!(header(&o, "x-session-id"), Some("my-session"));
    assert_eq!(header(&o, "x-cmd-zdr"), Some("1"));
    assert_eq!(header(&forward_request(&c, &body, "k", "s", "t", Some("0")), "x-cmd-zdr"), None);
    let mut c = c;
    c.zdr = true;
    assert_eq!(header(&forward_request(&c, &body, "k", "s", "t", None), "x-cmd-zdr"), Some("1"));
}

// ── Anthropic requests ─────────────────────────────────────────

fn chat_of(req: &str) -> Json {
    convert_anthropic_to_openai(&parsed(req))
}

#[test]
fn anthropic_texts_become_messages() {
    let j = chat_of(
        r#"{"model":"m","max_tokens":5,"stream":true,"system":"sys","temperature":1,"stop_sequences":["x"],"metadata":{"user_id":"u"},
            "messages":[{"role":"user","content":"a"},{"role":"assistant","content":[{"type":"thinking","thinking":"th"},{"type":"text","text":"b"}]}]}"#,
    );
    assert_eq!(
        json_string(&j),
        concat(&[
            r#"{"model":"m","messages":[{"role":"system","content":"sys"},{"role":"user","content":"a"},"#,
            r#"{"role":"assistant","content":"b","reasoning_content":"th"}],"max_tokens":5,"stream":true,"#,
            r#""temperature":1,"stop":["x"],"user":"u"}"#,
        ])
    );
}

#[test]
fn anthropic_tool_results_come_before_what_the_user_says() {
    let j = chat_of(
        r#"{"messages":[{"role":"assistant","content":[{"type":"tool_use","id":"t1","name":"f","input":{"x":1}}]},
            {"role":"user","content":[{"type":"text","text":"now"},{"type":"tool_result","tool_use_id":"t1","content":[{"type":"text","text":"r"}]},
                {"type":"tool_result","tool_use_id":"t9","content":"q"}]}]}"#,
    );
    assert_eq!(
        member(&j, "messages"),
        concat(&[
            r#"[{"role":"assistant","content":null,"tool_calls":[{"id":"t1","type":"function","function":{"name":"f","arguments":"{\"x\":1}"}}]},"#,
            r#"{"role":"tool","tool_call_id":"t1","content":"r","name":"f"},"#,
            r#"{"role":"tool","tool_call_id":"t9","content":"q"},"#,
            r#"{"role":"user","content":"now"}]"#,
        ])
    );
    assert_eq!(member(&j, "max_tokens"), "64000");
}

#[test]
fn anthropic_images_become_parts() {
    let j = chat_of(
        r#"{"messages":[{"role":"user","content":[{"type":"text","text":"see"},
            {"type":"image","source":{"type":"base64","media_type":"image/gif","data":"AA=="}},
            {"type":"image","source":{"type":"url","url":"https://i"}},{"type":"image","source":{}}]}]}"#,
    );
    assert_eq!(
        member(&j, "messages"),
        concat(&[
            r#"[{"role":"user","content":[{"type":"text","text":"see"},"#,
            r#"{"type":"image_url","image_url":{"url":"data:image/gif;base64,AA=="}},"#,
            r#"{"type":"image_url","image_url":{"url":"https://i"}}]}]"#,
        ])
    );
}

#[test]
fn anthropic_cache_marks_are_kept() {
    let j = chat_of(
        r#"{"system":[{"type":"text","text":"s","cache_control":{"type":"ephemeral"}}],
            "messages":[{"role":"user","content":[{"type":"text","text":"u","cache_control":{"type":"ephemeral"}}]}]}"#,
    );
    assert_eq!(
        member(&j, "messages"),
        concat(&[
            r#"[{"role":"system","content":[{"type":"text","text":"s","cache_control":{"type":"ephemeral"}}]},"#,
            r#"{"role":"user","content":[{"type":"text","text":"u","cache_control":{"type":"ephemeral"}}]}]"#,
        ])
    );
}

#[test]
fn anthropic_tools_and_thinking_are_translated() {
    let j = chat_of(
        r#"{"tools":[{"name":"f","description":"d","input_schema":{"a":1}},{"name":"g"}],"tool_choice":{"type":"tool","name":"f"},"thinking":{"type":"enabled","budget_tokens":5000}}"#,
    );
    assert_eq!(
        member(&j, "tools"),
        concat(&[
            r#"[{"type":"function","function":{"name":"f","description":"d","parameters":{"a":1}}},"#,
            r#"{"type":"function","function":{"name":"g","description":"","parameters":{"type":"object","properties":{}}}}]"#,
        ])
    );
    assert_eq!(member(&j, "tool_choice"), r#"{"type":"function","function":{"name":"f"}}"#);
    assert_eq!(member(&j, "reasoning_effort"), "\"medium\"");
    for (thinking, want) in [
        (r#"{"type":"enabled","budget_tokens":10000}"#, "\"high\""),
        (r#"{"type":"enabled","budget_tokens":4999}"#, "\"low\""),
        (r#"{"type":"adaptive","effort":"max"}"#, "\"max\""),
        (r#"{"type":"adaptive"}"#, "\"medium\""),
        (r#"{"type":"disabled","budget_tokens":1}"#, "(absent)"),
    ] {
        let j = chat_of(&format!("{{\"thinking\":{}}}", thinking));
        assert_eq!(member(&j, "reasoning_effort"), want, "{}", thinking);
    }
    for (choice, want) in [
        (r#"{"type":"any"}"#, "\"required\""),
        (r#"{"type":"none"}"#, "\"none\""),
        (r#"{"type":"auto"}"#, "\"auto\""),
        (r#"{"type":"odd"}"#, "(absent)"),
    ] {
        let j = chat_of(&format!("{{\"tool_choice\":{}}}", choice));
        assert_eq!(member(&j, "tool_choice"), want, "{}", choice);
    }
}

// ── Responses requests ─────────────────────────────────────────

fn ids(n: usize) -> Vec<String> {
    (0..n).map(|i| format!("{:08x}-0000-4000-8000-000000000000", i)).collect()
}

#[test]
fn a_text_is_a_user_message() {
    let j = convert_responses_to_chat(&parsed(r#"{"model":"m","input":"hi","instructions":"be kind","max_output_tokens":9}"#));
    assert_eq!(
        json_string(&j),
        r#"{"model":"m","messages":[{"role":"system","content":"be kind"},{"role":"user","content":"hi"}],"stream":false,"max_tokens":9}"#
    );
}

#[test]
fn items_become_messages() {
    let j = convert_responses_with(
        &parsed(
            r#"{"input":[{"role":"developer","content":"d"},{"type":"message","role":"user","content":[{"type":"input_text","text":"u"},{"type":"input_text","text":"v"}]},
                {"type":"reasoning","summary":[{"text":"think"}]},{"type":"message","role":"assistant","content":"a"},
                {"type":"function_call","call_id":"c1","name":"f","arguments":"{}"},{"type":"function_call","name":"g"},
                {"type":"function_call_output","call_id":"c1","output":"o"},{"type":"odd"},"x"]}"#,
        ),
        &ids(9),
    );
    assert_eq!(
        member(&j, "messages"),
        concat(&[
            r#"[{"role":"system","content":"d"},{"role":"user","content":"uv"},"#,
            r#"{"role":"assistant","content":"a","reasoning_content":"think","tool_calls":["#,
            r#"{"id":"c1","type":"function","function":{"name":"f","arguments":"{}"}},"#,
            r#"{"id":"call_00000005","type":"function","function":{"name":"g","arguments":"{}"}}]},"#,
            r#"{"role":"tool","tool_call_id":"c1","content":"o"}]"#,
        ])
    );
}

#[test]
fn reasoning_alone_is_no_message() {
    let j = convert_responses_with(
        &parsed(r#"{"input":[{"type":"reasoning","summary":[{"text":"think"}]}]}"#),
        &ids(1),
    );
    assert_eq!(member(&j, "messages"), "[]");
}

#[test]
fn response_tools_are_translated() {
    let j = convert_responses_to_chat(&parsed(
        r#"{"input":"x","tools":[{"type":"function","name":"f","parameters":{"a":1}},{"type":"web_search"}],
            "tool_choice":{"type":"function","name":"f"},"reasoning":{"effort":"low"},"parallel_tool_calls":true,"stream":true}"#,
    ));
    assert_eq!(
        member(&j, "tools"),
        r#"[{"type":"function","function":{"name":"f","description":"","parameters":{"a":1}}}]"#
    );
    assert_eq!(member(&j, "tool_choice"), r#"{"type":"function","function":{"name":"f"}}"#);
    assert_eq!(member(&j, "reasoning_effort"), "\"low\"");
    assert_eq!(member(&j, "parallel_tool_calls"), "true");
    assert_eq!(member(&j, "stream"), "true");
}

#[test]
fn anthropic_tool_choices_come_through() {
    for choice in [
        r#"{"type":"auto"}"#,
        r#"{"type":"any"}"#,
        r#"{"type":"none"}"#,
        r#"{"type":"tool","name":"f"}"#,
    ] {
        let chat = chat_of(&format!("{{\"tool_choice\":{}}}", choice));
        let sent = build_cc_request(&Config::default(), &DeviceProfile::new(""), &chat);
        assert_eq!(json_string(sent.get2("params", "tool_choice").unwrap()), choice);
    }
}
