use commandcode_proxy::errors::fake_thinking_signature;
use commandcode_proxy::handlers::chat::{self, ChatStream};
use commandcode_proxy::handlers::gather::Gather;
use commandcode_proxy::handlers::messages::{self, AnthropicStream};
use commandcode_proxy::handlers::responses::{self, ResponsesStream};
use commandcode_proxy::json::{json_string, parse_json, Json};
use commandcode_proxy::translate::anthropic::{
    build_anthropic_response, build_anthropic_response_with, AnthropicSseTranslator,
};
use commandcode_proxy::translate::chat::ChatSseTranslator;
use commandcode_proxy::translate::responses::{
    build_responses_object, build_responses_object_with, build_responses_output, build_responses_usage,
    new_responses_id, responses_id, OutputIds, ResponsesSseTranslator,
};

const ID: &str = "01234567-89ab-4def-8123-456789abcdef";
const FINISH: &str = r#"{"type":"finish","finishReason":"stop","totalUsage":{"inputTokens":9,"outputTokens":4,"cachedInputTokens":2}}"#;

fn parsed(s: &str) -> Json {
    parse_json(s).expect("the test's JSON is valid")
}

fn text(t: &str) -> String {
    format!("{{\"type\":\"text-delta\",\"text\":\"{}\"}}", t)
}

fn bytes(lines: &[&str]) -> Vec<u8> {
    lines.iter().map(|l| format!("{}\n", l)).collect::<String>().into_bytes()
}

fn joined(parts: &[&str]) -> String {
    parts.concat()
}

/// The data of the frames in a text.
fn frames(s: &str) -> Vec<Json> {
    s.split("\n\n")
        .filter_map(|f| f.split('\n').find(|l| l.starts_with("data: ")).map(|l| parsed(&l[6..])))
        .collect()
}

// ── chat ───────────────────────────────────────────────────────

fn chat_lines(lines: &[&str]) -> (ChatSseTranslator, Vec<String>) {
    let mut t = ChatSseTranslator::new("m", "chatcmpl-1", 100);
    let mut out = Vec::new();
    for l in lines {
        out.extend(t.parse_line_at(l, 200));
    }
    (t, out)
}

#[test]
fn chat_chunks_are_told() {
    let (t, out) = chat_lines(&[
        "",
        ": comment",
        "[DONE]",
        "not json",
        r#"{"no":"type"}"#,
        r#"{"type":"start"}"#,
        &text(""),
        r#"{"type":"reasoning-delta","text":"hm"}"#,
        &text("a"),
        r#"{"type":"text-delta","delta":"b"}"#,
        FINISH,
    ]);
    assert_eq!(out.len(), 4);
    assert_eq!(
        out[0],
        "data: {\"id\":\"chatcmpl-1\",\"object\":\"chat.completion.chunk\",\"created\":100,\"model\":\"m\",\"choices\":[{\"index\":0,\"delta\":{\"role\":\"assistant\",\"reasoning_content\":\"hm\"},\"finish_reason\":null}]}\n\n"
    );
    assert!(out[1].contains(r#""delta":{"content":"a"}"#));
    assert!(out[2].contains(r#""delta":{"content":"b"}"#));
    assert!(out[3].contains(
        r#""delta":{},"finish_reason":"stop"}],"usage":{"prompt_tokens":9,"completion_tokens":4,"total_tokens":13,"prompt_tokens_details":{"cached_tokens":2}}}"#
    ));
    assert_eq!(t.incomplete_detail(), None);
    assert_eq!(t.last_cc_event, "finish");
    assert_eq!(ChatSseTranslator::done_event(), "data: [DONE]\n\n");
}

#[test]
fn chat_calls_are_numbered() {
    let (t, out) = chat_lines(&[
        r#"{"type":"tool-call","toolCallId":"c1","toolName":"f","input":{"a":1}}"#,
        r#"{"type":"tool-call","toolName":"g","input":"raw"}"#,
        r#"{"type":"tool-call","toolCallId":"c3","toolName":"h","input":0}"#,
        r#"{"type":"finish-step","finishReason":"tool-calls","usage":{"outputTokens":3}}"#,
        r#"{"type":"finish"}"#,
    ]);
    assert!(out[0].contains(
        r#""delta":{"role":"assistant","content":null,"tool_calls":[{"index":0,"id":"c1","type":"function","function":{"name":"f","arguments":"{\"a\":1}"}}]}"#
    ));
    assert!(out[1].contains(
        r#""delta":{"tool_calls":[{"index":1,"id":"call_200000_1","type":"function","function":{"name":"g","arguments":"raw"}}]}"#
    ));
    assert!(out[2].contains(r#"{"index":2,"id":"c3","type":"function","function":{"name":"h","arguments":"{}"}}"#));
    assert!(out[3].contains(r#""finish_reason":"tool_calls""#));
    assert_eq!(t.output_tokens, 3);
}

#[test]
fn a_chat_stream_names_its_role_once_and_numbers_its_calls() {
    let (_, out) = chat_lines(&[
        r#"{"type":"start"}"#,
        r#"{"type":"reasoning-delta","text":"hm"}"#,
        r#"{"type":"tool-call","toolCallId":"c1","toolName":"f","input":{}}"#,
        &text("x"),
        r#"{"type":"tool-call","toolCallId":"c2","toolName":"f","input":{}}"#,
        r#"{"type":"finish-step","finishReason":"tool-calls","usage":{"outputTokens":3}}"#,
        r#"{"type":"tool-call","toolCallId":"c3","toolName":"f","input":{}}"#,
        FINISH,
    ]);
    let fs = frames(&out.concat());
    let mut numbers = Vec::new();
    for (i, f) in fs.iter().enumerate() {
        assert_eq!(f.get_str("id"), Some("chatcmpl-1"));
        assert_eq!(f.get_str("model"), Some("m"));
        assert_eq!(f.get("created").and_then(|n| n.as_u64()), Some(100));
        let delta = f.items("choices").at(0).get("delta").unwrap();
        assert_eq!(delta.get_str("role"), if i == 0 { Some("assistant") } else { None });
        if delta.get("tool_calls").is_some() {
            numbers.push(delta.items("tool_calls").at(0).get("index").and_then(|n| n.as_u64()).unwrap());
        }
    }
    assert_eq!(numbers, vec![0, 1, 2]);
}

#[test]
fn chat_pauses_are_told_as_cut_off() {
    let (_, out) = chat_lines(&[r#"{"type":"finish","finishReason":"pause_turn"}"#]);
    assert!(out[0].contains(r#""finish_reason":"length""#));
}

#[test]
fn a_chat_stream_runs_to_its_end() {
    let mut s = ChatStream::new("m", "id", 1);
    assert!(s.on_chunk_at(b"{\"type\":\"text-del", 2).is_empty());
    let sent = s.on_chunk_at(b"ta\",\"text\":\"x\"}\n", 2);
    assert_eq!(sent.len(), 1);
    assert_eq!(s.on_chunk_at(b"{\"type\":\"start\"}\n", 2), vec![": keepalive\n\n"]);
    assert!(s.on_chunk(FINISH.as_bytes()).len() == 1);
    let end = s.on_end();
    assert_eq!(end.sent.len(), 2);
    assert_eq!(end.sent[1], "data: [DONE]\n\n");
    assert!(end.failure.is_none());
    assert!(end.resets_timeouts);
}

#[test]
fn a_chat_stream_that_said_nothing_is_answered() {
    let mut s = ChatStream::new("m", "id", 1);
    assert!(s.on_chunk_at(&bytes(&[r#"{"type":"start"}"#]), 2).is_empty());
    let end = s.on_end_at(2);
    let f = end.failure.unwrap();
    assert_eq!(f.status, 502);
    assert_eq!(f.body.get("retry_after").and_then(|v| v.as_u64()), Some(10));
    assert!(end.sent.is_empty() && !end.resets_timeouts);

    let mut s = ChatStream::new("m", "id", 1);
    s.on_chunk_at(&bytes(&[r#"{"type":"error","error":{"message":"<402> x"}}"#]), 2);
    assert_eq!(s.on_end_at(2).failure.unwrap().status, 429);

    let mut s = ChatStream::new("m", "id", 1);
    s.on_chunk_at(&bytes(&[r#"{"type":"finish-step"}"#]), 2);
    let f = s.on_end_at(2).failure.unwrap();
    assert_eq!((f.status, f.body.get2("error", "type").and_then(|t| t.as_str())), (429, Some("rate_limit_error")));
}

#[test]
fn a_chat_stream_that_was_cut_off_is_not_done() {
    let mut s = ChatStream::new("m", "id", 1);
    s.on_chunk_at(&bytes(&[&text("x")]), 2);
    let end = s.on_end_at(2);
    assert!(end.failure.is_none() && !end.resets_timeouts);
    assert_eq!(frames(&end.sent.concat())[0].get2("error", "type").and_then(|t| t.as_str()), Some("upstream_error"));

    let mut s = ChatStream::new("m", "id", 1);
    s.on_chunk_at(&bytes(&[&text("x"), r#"{"type":"finish","finishReason":"network-error","totalUsage":{"outputTokens":1}}"#]), 2);
    assert!(!s.on_end_at(2).sent.concat().contains("[DONE]"));

    let s = ChatStream::new("m", "id", 1);
    let f = s.on_idle(1).failure.unwrap();
    assert_eq!(
        json_string(&f.body),
        r#"{"error":{"message":"Response timeout - request timed out","type":"rate_limit_error","input_tokens":0},"retry_after":5}"#
    );
    assert_eq!(s.on_broken("boom").failure.unwrap().status, 502);
    let mut s = ChatStream::new("m", "id", 1);
    s.on_chunk_at(&bytes(&[&text("x")]), 2);
    assert_eq!(
        s.on_idle(3).sent[0],
        "data: {\"error\":{\"message\":\"Response timeout - try reducing context length (summarize earlier messages)\",\"type\":\"rate_limit_error\"},\"retry_after\":5}\n\n"
    );
    assert_eq!(s.on_broken("boom").sent[0], "data: {\"error\":{\"message\":\"boom\",\"type\":\"proxy_error\"}}\n\n");
}

#[test]
fn cuts_make_no_difference_to_a_chat_stream() {
    let a = text("one");
    let b = text("tw\u{e9}");
    let all = bytes(&[&a, &b, FINISH]);
    let run = |size: usize| {
        let mut s = ChatStream::new("m", "id", 1);
        let mut sent = Vec::new();
        for c in all.chunks(size) {
            sent.extend(s.on_chunk_at(c, 2));
        }
        sent.extend(s.on_end_at(2).sent);
        sent.into_iter().filter(|t| !t.starts_with(':')).collect::<Vec<_>>()
    };
    for size in [1, 2, 3, 7, 50] {
        assert_eq!(run(size), run(all.len()));
    }
}

// ── Anthropic ──────────────────────────────────────────────────

fn anthropic_lines(lines: &[&str]) -> (AnthropicSseTranslator, Vec<String>) {
    let mut t = AnthropicSseTranslator::new("m", "msg_1");
    let mut out = Vec::new();
    for l in lines {
        out.extend(t.parse_line_with(l, ID));
    }
    (t, out)
}

#[test]
fn each_thinking_block_is_signed_for_all_its_thinking() {
    let (mut t, out) = anthropic_lines(&[
        r#"{"type":"reasoning-delta","text":"a"}"#,
        r#"{"type":"reasoning-delta","text":"bc"}"#,
        &text("x"),
        r#"{"type":"reasoning-delta","text":"d"}"#,
        FINISH,
    ]);
    let mut all = out;
    all.extend(t.finalize());
    let mut said = String::new();
    let mut signed = Vec::new();
    for f in frames(&all.concat()) {
        match f.get_str("type") {
            Some("content_block_start") => said.clear(),
            Some("content_block_delta") => {
                let delta = f.get("delta").unwrap();
                match delta.get_str("type") {
                    Some("thinking_delta") => said.push_str(delta.get_str("thinking").unwrap()),
                    Some("signature_delta") => {
                        assert_eq!(delta.get_str("signature"), Some(fake_thinking_signature(&said).as_str()));
                        signed.push(said.clone());
                    }
                    _ => {}
                }
            }
            _ => {}
        }
    }
    assert_eq!(signed, vec!["abc".to_string(), "d".to_string()]);
    assert!(all.concat().contains("EiC6eBa/jwHP6kFBQN5driIjsANho5YXepy0EP9h8gAVrQ=="));
}

#[test]
fn anthropic_blocks_follow_each_other() {
    let (mut t, out) = anthropic_lines(&[
        r#"{"type":"reasoning-delta","text":"abc"}"#,
        &text("x"),
        &text("y"),
        r#"{"type":"tool-call","toolName":"f","input":{"a":1}}"#,
        r#"{"type":"finish","finishReason":"tool-calls","totalUsage":{"inputTokens":10,"outputTokens":5,"cachedInputTokens":3,"inputTokenDetails":{"cacheWriteTokens":2}}}"#,
    ]);
    let all = out.concat();
    let kinds: Vec<(String, Option<u64>)> = frames(&all)
        .iter()
        .map(|f| (f.get_str("type").unwrap().to_string(), f.get("index").and_then(|i| i.as_u64())))
        .collect();
    let want = [
        ("content_block_start", 0),
        ("content_block_delta", 0),
        ("content_block_delta", 0),
        ("content_block_stop", 0),
        ("content_block_start", 1),
        ("content_block_delta", 1),
        ("content_block_delta", 1),
        ("content_block_stop", 1),
        ("content_block_start", 2),
        ("content_block_delta", 2),
        ("content_block_stop", 2),
    ];
    assert_eq!(kinds.len(), want.len());
    for (k, w) in kinds.iter().zip(want) {
        assert_eq!((k.0.as_str(), k.1), (w.0, Some(w.1)));
    }
    assert!(all.contains(r#"{"type":"signature_delta","signature":"EiC6eBa/jwHP6kFBQN5driIjsANho5YXepy0EP9h8gAVrQ=="}"#));
    assert!(all.contains(r#"{"type":"tool_use","id":"toolu_0123456789ab","name":"f","input":{}}"#));
    assert!(all.contains(r#"{"type":"input_json_delta","partial_json":"{\"a\":1}"}"#));
    assert!(all.starts_with("event: content_block_start\ndata: "));
    let end = t.finalize();
    assert_eq!(
        end.concat(),
        "event: message_delta\ndata: {\"type\":\"message_delta\",\"delta\":{\"stop_reason\":\"tool_use\"},\"usage\":{\"output_tokens\":5,\"cache_read_input_tokens\":3,\"cache_creation_input_tokens\":2,\"input_tokens\":5}}\n\nevent: message_stop\ndata: {\"type\":\"message_stop\"}\n\n"
    );
    assert_eq!((t.input_tokens(), t.output_tokens(), t.cached_input_tokens()), (10, 5, 3));
}

#[test]
fn anthropic_output_is_counted_where_none_is_reported() {
    let (mut t, _) = anthropic_lines(&[&text("x"), &text("y"), r#"{"type":"finish-step"}"#]);
    let end = t.finalize().concat();
    assert!(end.starts_with("event: content_block_stop"));
    assert!(end.contains(r#""stop_reason":"end_turn""#));
    assert!(end.contains(r#""output_tokens":2"#));
}

#[test]
fn anthropic_ends_that_are_no_ends() {
    let (mut t, _) = anthropic_lines(&[&text("x")]);
    let end = t.finalize().concat();
    assert!(end.contains("event: error") && !end.contains("message_stop"));
    let (mut t, _) = anthropic_lines(&[r#"{"type":"finish"}"#]);
    assert_eq!(
        t.finalize().concat(),
        "event: error\ndata: {\"type\":\"error\",\"error\":{\"type\":\"rate_limit_error\",\"message\":\"Empty response from upstream (zero output tokens)\"},\"retry_after\":10}\n\n"
    );
    let (mut t, out) = anthropic_lines(&[&text("x"), r#"{"type":"error","error":{"message":"bad"}}"#]);
    assert!(out.concat().ends_with("event: error\ndata: {\"type\":\"error\",\"error\":{\"message\":\"bad\",\"type\":\"upstream_error\"}}\n\n"));
    assert!(t.finalize().is_empty());
}

#[test]
fn a_message_stream_begins_with_its_start() {
    let mut s = AnthropicStream::new("m", "msg_1");
    assert!(s.on_chunk(&bytes(&[r#"{"type":"start"}"#])).is_empty());
    assert_eq!(s.ping(20_000), None);
    let sent = s.on_chunk(&bytes(&[&text("x"), &text("y")]));
    assert!(sent[0].starts_with("event: message_start\ndata: {\"type\":\"message_start\",\"message\":{\"id\":\"msg_1\",\"type\":\"message\",\"role\":\"assistant\",\"content\":[],\"model\":\"m\",\"usage\":{\"input_tokens\":0,\"output_tokens\":0}}}\n\nevent: content_block_start"));
    assert_eq!(sent.concat().matches("message_start\ndata").count(), 1);
    assert_eq!(s.ping(14_999), None);
    assert_eq!(s.ping(15_000), Some("event: ping\ndata: {\"type\":\"ping\"}\n\n"));
    s.on_chunk(&bytes(&[FINISH]));
    let end = s.on_end();
    assert!(end.failure.is_none() && end.resets_timeouts);
    assert!(end.sent.concat().ends_with("event: message_stop\ndata: {\"type\":\"message_stop\"}\n\n"));
}

#[test]
fn a_message_stream_that_said_nothing_is_answered() {
    let mut s = AnthropicStream::new("m", "msg_1");
    let end = s.on_end_with(ID);
    let f = end.failure.unwrap();
    assert_eq!(f.status, 502);
    assert_eq!(f.body.get2("error", "type").and_then(|t| t.as_str()), Some("upstream_error"));
    assert_eq!(f.body.get("retry_after").and_then(|t| t.as_u64()), Some(10));

    let mut s = AnthropicStream::new("m", "msg_1");
    assert!(s.on_chunk(&bytes(&[r#"{"type":"error","error":{"message":"<403> no"}}"#])).is_empty());
    let f = s.on_end_with(ID).failure.unwrap();
    assert_eq!(
        (f.status, json_string(&f.body)),
        (401, r#"{"error":{"message":"<403> no","type":"authentication_error"}}"#.to_string())
    );

    let mut s = AnthropicStream::new("m", "msg_1");
    s.on_chunk(&bytes(&[r#"{"type":"finish"}"#]));
    let f = s.on_end_with(ID).failure.unwrap();
    assert_eq!(
        (f.status, json_string(&f.body)),
        (429, r#"{"type":"error","error":{"type":"rate_limit_error","message":"Empty response from upstream (zero output tokens)"},"retry_after":10}"#.to_string())
    );
    let s = AnthropicStream::new("m", "msg_1");
    assert_eq!(
        json_string(&s.on_idle(1).failure.unwrap().body),
        r#"{"type":"error","error":{"type":"rate_limit_error","message":"Response timeout - request timed out"},"retry_after":5}"#
    );
    assert_eq!(
        json_string(&s.on_broken("x").failure.unwrap().body),
        r#"{"type":"error","error":{"type":"proxy_error","message":"Upstream error: x"},"retry_after":10}"#
    );
}

#[test]
fn a_message_stream_that_began_tells_its_failure() {
    let mut s = AnthropicStream::new("m", "msg_1");
    s.on_chunk(&bytes(&[&text("x")]));
    assert_eq!(
        s.on_idle(1).sent[0],
        "event: error\ndata: {\"type\":\"error\",\"error\":{\"type\":\"rate_limit_error\",\"message\":\"Response timeout - request timed out\"},\"retry_after\":5}\n\n"
    );
    assert_eq!(
        s.on_broken("x").sent[0],
        "event: error\ndata: {\"type\":\"error\",\"error\":{\"type\":\"internal_error\",\"message\":\"x\"}}\n\n"
    );
}

#[test]
fn cuts_make_no_difference_to_a_message_stream() {
    let a = text("one");
    let b = r#"{"type":"tool-call","toolCallId":"c","toolName":"f","input":{}}"#;
    let all = bytes(&[&a, b, FINISH]);
    let run = |size: usize| {
        let mut s = AnthropicStream::new("m", "msg_1");
        let mut sent = String::new();
        for c in all.chunks(size) {
            sent.push_str(&s.on_chunk(c).concat());
        }
        sent.push_str(&s.on_end().sent.concat());
        sent
    };
    for size in [1, 2, 3, 7, 50] {
        assert_eq!(run(size), run(all.len()));
    }
}

#[test]
fn whole_messages_are_built() {
    let calls = vec![parsed(r#"{"id":"c1","function":{"name":"f","arguments":"{\"a\":1}"}}"#)];
    let j = build_anthropic_response_with(
        "m",
        "hello",
        Some(&calls),
        "tool_calls",
        Some(&parsed(r#"{"inputTokens":10,"outputTokens":3,"cachedInputTokens":4}"#)),
        "abc",
        ID,
    );
    assert_eq!(
        json_string(&j),
        joined(&[
            r#"{"id":"msg_0123456789ab","type":"message","role":"assistant","model":"m","content":["#,
            r#"{"type":"thinking","thinking":"abc","signature":"EiC6eBa/jwHP6kFBQN5driIjsANho5YXepy0EP9h8gAVrQ=="},"#,
            r#"{"type":"text","text":"hello"},{"type":"tool_use","id":"c1","name":"f","input":{"a":1}}],"#,
            r#""stop_reason":"tool_use","stop_sequence":null,"usage":{"input_tokens":6,"output_tokens":3,"#,
            r#""cache_creation_input_tokens":0,"cache_read_input_tokens":4}}"#
        ])
    );
    let j = build_anthropic_response("m", "hello", None, "stop", None, "");
    assert_eq!(j.get2("usage", "output_tokens").and_then(|v| v.as_u64()), Some(2));
    assert!(j.get_str("id").unwrap().starts_with("msg_"));
}

// ── Responses ──────────────────────────────────────────────────

fn responses_lines(lines: &[&str]) -> (ResponsesSseTranslator, Vec<String>) {
    let mut t = ResponsesSseTranslator::new("m", "resp_1", 100);
    let mut out = Vec::new();
    for l in lines {
        out.extend(t.parse_line_with(l, ID, ID));
    }
    (t, out)
}

#[test]
fn response_events_are_numbered_and_nested() {
    let (mut t, mut out) = responses_lines(&[
        r#"{"type":"reasoning-delta","text":"hm"}"#,
        &text("x"),
        &text("y"),
        r#"{"type":"tool-call","toolName":"f","input":{"a":1}}"#,
        FINISH,
    ]);
    out.extend(t.finish());
    let fs = frames(&out.concat());
    assert_eq!(fs.len(), out.len());
    for (i, f) in fs.iter().enumerate() {
        assert_eq!(f.get("sequence_number").and_then(|n| n.as_u64()), Some(i as u64));
    }
    let kinds: Vec<&str> = fs.iter().map(|f| f.get_str("type").unwrap()).collect();
    assert_eq!(
        kinds,
        vec![
            "response.created",
            "response.in_progress",
            "response.output_item.added",
            "response.reasoning_summary_part.added",
            "response.reasoning_summary_text.delta",
            "response.reasoning_summary_text.done",
            "response.reasoning_summary_part.done",
            "response.output_item.done",
            "response.output_item.added",
            "response.content_part.added",
            "response.output_text.delta",
            "response.output_text.delta",
            "response.output_text.done",
            "response.content_part.done",
            "response.output_item.done",
            "response.output_item.added",
            "response.function_call_arguments.delta",
            "response.function_call_arguments.done",
            "response.output_item.done",
            "response.completed",
        ]
    );
    let last = fs.last().unwrap().get("response").unwrap();
    assert_eq!(last.get_str("status"), Some("completed"));
    assert_eq!(last.get_str("output_text"), Some("xy"));
    assert_eq!(last.items("output").len(), 3);
    assert_eq!(
        json_string(last.items("output").at(2)),
        r#"{"type":"function_call","id":"fc_0123456789ab4def81234567","call_id":"call_0123456789ab4def81234567","name":"f","arguments":"{\"a\":1}","status":"completed"}"#
    );
    assert_eq!(
        json_string(last.get("usage").unwrap()),
        r#"{"input_tokens":9,"input_tokens_details":{"cached_tokens":2,"cache_write_tokens":0},"output_tokens":4,"output_tokens_details":{"reasoning_tokens":0},"total_tokens":13}"#
    );
}

#[test]
fn response_events_open_once_whatever_comes() {
    let mut t = ResponsesSseTranslator::new("m", "resp_1", 100);
    let mut out = t.finish();
    out.extend(t.fail("early"));
    out.extend(t.parse_line_with(r#"{"type":"start"}"#, ID, ID));
    assert!(out.is_empty());
    assert!(!t.started());
    out.extend(t.parse_line_with(&text("x"), ID, ID));
    assert!(t.started());
    out.extend(t.fail("broken"));
    out.extend(t.parse_line_with(&text("y"), ID, ID));
    out.extend(t.finish());
    out.extend(t.parse_line_with(r#"{"type":"tool-call","toolName":"f","input":{}}"#, ID, ID));
    out.extend(t.fail("late"));
    let fs = frames(&out.concat());
    assert_eq!(fs.len(), out.len());
    for (i, f) in fs.iter().enumerate() {
        assert_eq!(f.get("sequence_number").and_then(|n| n.as_u64()), Some(i as u64));
        let ty = f.get_str("type").unwrap();
        assert_eq!(ty == "response.created", i == 0);
        assert_eq!(ty == "response.in_progress", i == 1);
    }
}

#[test]
fn a_response_holds_the_text_and_the_items_that_were_told() {
    let (mut t, mut out) = responses_lines(&[
        &text("a"),
        r#"{"type":"tool-call","toolName":"f","input":{"k":1}}"#,
        r#"{"type":"text-delta","delta":"b"}"#,
        r#"{"type":"reasoning-delta","text":"hm"}"#,
        &text("c"),
        FINISH,
    ]);
    out.extend(t.finish());
    let fs = frames(&out.concat());
    let mut said = String::new();
    let mut items = Vec::new();
    for f in &fs {
        match f.get_str("type") {
            Some("response.output_text.delta") => said.push_str(f.get_str("delta").unwrap()),
            Some("response.output_item.done") => {
                assert_eq!(f.get("output_index").and_then(|n| n.as_u64()), Some(items.len() as u64));
                items.push(json_string(f.get("item").unwrap()));
            }
            _ => {}
        }
    }
    let last = fs.last().unwrap();
    assert_eq!(last.get_str("type"), Some("response.completed"));
    let response = last.get("response").unwrap();
    assert_eq!(said, "abc");
    assert_eq!(response.get_str("output_text"), Some("abc"));
    assert_eq!(items.len(), 5);
    assert_eq!(json_string(response.get("output").unwrap()), format!("[{}]", items.join(",")));
}

#[test]
fn the_last_reason_decides_how_a_response_ends() {
    let end_of = |reasons: &[&str]| {
        let lines: Vec<String> =
            reasons.iter().map(|r| format!("{{\"type\":\"finish\",\"finishReason\":\"{}\"}}", r)).collect();
        let x = text("x");
        let mut all = vec![x.as_str()];
        all.extend(lines.iter().map(|l| l.as_str()));
        let (mut t, _) = responses_lines(&all);
        frames(&t.finish().concat()).last().unwrap().get_str("type").unwrap().to_string()
    };
    assert_eq!(end_of(&["network error"]), "response.failed");
    assert_eq!(end_of(&["stop", "network error"]), "response.failed");
    assert_eq!(end_of(&["network error", "length"]), "response.incomplete");
    assert_eq!(end_of(&["pause_turn"]), "response.incomplete");
    assert_eq!(end_of(&["length", "stop"]), "response.completed");
    assert_eq!(end_of(&["tool-calls"]), "response.completed");
}

#[test]
fn responses_that_are_cut_short_say_so() {
    let (mut t, _) = responses_lines(&[&text("x"), r#"{"type":"finish","finishReason":"max_tokens"}"#]);
    let end = frames(&t.finish().concat());
    let last = end.last().unwrap();
    assert_eq!(last.get_str("type"), Some("response.incomplete"));
    assert_eq!(
        json_string(last.get("response").unwrap().get("incomplete_details").unwrap()),
        r#"{"reason":"max_output_tokens"}"#
    );
    let (mut t, _) = responses_lines(&[&text("x")]);
    let end = frames(&t.finish().concat());
    assert_eq!(end.last().unwrap().get_str("type"), Some("response.failed"));
    let (mut t, _) = responses_lines(&[&text("x"), r#"{"type":"finish-step","finishReason":"stop"}"#]);
    let end = frames(&t.finish().concat());
    assert_eq!(end.last().unwrap().get_str("type"), Some("response.completed"));
    let (mut t, out) = responses_lines(&[FINISH]);
    assert!(out.is_empty() && t.finish().is_empty());
}

#[test]
fn a_response_stream_that_said_nothing_is_answered() {
    let mut s = ResponsesStream::new("m", "resp_1", 1);
    let f = s.on_end_with(ID, ID).failure.unwrap();
    assert_eq!(f.status, 502);
    assert_eq!(f.body.get("retry_after").and_then(|v| v.as_u64()), Some(10));
    let mut s = ResponsesStream::new("m", "resp_1", 1);
    s.on_chunk(&bytes(&[r#"{"type":"finish"}"#]));
    let f = s.on_end().failure.unwrap();
    assert_eq!(
        (f.status, json_string(&f.body)),
        (429, r#"{"error":{"message":"Empty response from upstream (zero output tokens)","type":"rate_limit_error","code":null,"param":null},"retry_after":10}"#.to_string())
    );
    let mut s = ResponsesStream::new("m", "resp_1", 1);
    s.on_chunk(&bytes(&[r#"{"type":"error","error":{"message":"<503> x"}}"#]));
    assert_eq!(s.on_end_with(ID, ID).failure.unwrap().status, 503);
    let mut s = ResponsesStream::new("m", "resp_1", 1);
    assert_eq!(s.on_idle(1).failure.unwrap().status, 429);
    assert_eq!(s.on_broken("x").failure.unwrap().status, 502);
}

#[test]
fn a_response_stream_that_began_tells_its_failure() {
    let mut s = ResponsesStream::new("m", "resp_1", 1);
    let sent = s.on_chunk(&bytes(&[&text("x")]));
    let n = sent.len();
    let e = s.on_broken("boom");
    assert_eq!(
        e.sent[0],
        format!("event: error\ndata: {{\"type\":\"error\",\"sequence_number\":{},\"code\":null,\"message\":\"boom\",\"param\":null}}\n\n", n)
    );
    let mut s = ResponsesStream::new("m", "resp_1", 1);
    s.on_chunk(&bytes(&[&text("x"), r#"{"type":"error","error":{"message":"bad"}}"#]));
    let end = s.on_end_with(ID, ID);
    assert!(!end.resets_timeouts && end.failure.is_none());
    let last = frames(&end.sent.concat());
    assert_eq!(last[0].get_str("type"), Some("response.failed"));
    assert_eq!(
        json_string(last[0].get("response").unwrap().get("error").unwrap()),
        r#"{"code":"upstream_error","message":"bad"}"#
    );
}

#[test]
fn whole_responses_are_built() {
    let ids = OutputIds { reasoning: ID.to_string(), message: ID.to_string(), calls: vec![ID.to_string()] };
    let calls = vec![parsed(r#"{"id":"c1","function":{"name":"f","arguments":{"a":1}}}"#)];
    let j = build_responses_object_with(
        "resp_1",
        "m",
        5,
        "hello",
        "think",
        Some(&calls),
        Some(&parsed(r#"{"inputTokens":1,"outputTokens":2}"#)),
        &parsed(r#"{"finishReason":"length","instructions":"i","temperature":null,"top_p":0.5,"tools":[1]}"#),
        6,
        &ids,
    );
    assert_eq!(
        json_string(&j),
        joined(&[
            r#"{"id":"resp_1","object":"response","created_at":5,"status":"incomplete","completed_at":6,"error":null,"#,
            r#""incomplete_details":{"reason":"max_output_tokens"},"input":[],"instructions":"i","max_output_tokens":null,"model":"m","#,
            r#""output":[{"type":"reasoning","id":"rs_0123456789ab4def81234567","summary":[{"type":"summary_text","text":"think"}]},"#,
            r#"{"type":"message","id":"msg_0123456789ab4def81234567","status":"completed","role":"assistant","content":[{"type":"output_text","text":"hello","annotations":[]}]},"#,
            r#"{"type":"function_call","id":"fc_0123456789ab4def81234567","call_id":"c1","name":"f","arguments":"{\"a\":1}","status":"completed"}],"#,
            r#""output_text":"hello","parallel_tool_calls":true,"previous_response_id":null,"reasoning":null,"store":false,"temperature":1,"#,
            r#""text":{"format":{"type":"text"}},"tool_choice":"auto","tools":[1],"top_p":0.5,"truncation":"disabled","#,
            r#""usage":{"input_tokens":1,"input_tokens_details":{"cached_tokens":0,"cache_write_tokens":0},"output_tokens":2,"output_tokens_details":{"reasoning_tokens":0},"total_tokens":3},"#,
            r#""user":null,"metadata":{}}"#
        ])
    );
    let j = build_responses_object("r", "m", 5, "t", "", None, None, &parsed("{}"));
    assert_eq!(j.get_str("status"), Some("completed"));
    assert_eq!(build_responses_output("", "", None).len(), 0);
    assert_eq!(build_responses_usage(None, 7).get("output_tokens").and_then(|v| v.as_u64()), Some(7));
    assert_eq!(responses_id("resp_", ID), "resp_0123456789ab4def81234567");
    assert_eq!(new_responses_id("fc_").len(), 27);
}

// ── answers that are no stream ─────────────────────────────────

fn gathered(lines: &[&str], comments: bool, step_usage: bool) -> Gather {
    let mut g = Gather::new(comments, step_usage);
    g.on_chunk(&bytes(lines));
    g.on_end();
    g
}

#[test]
fn answers_are_gathered() {
    let g = gathered(
        &[
            r#"{"type":"reasoning-delta","text":"r"}"#,
            &text("a"),
            &text("b"),
            r#"{"type":"tool-call","toolCallId":"c1","toolName":"f","input":{"x":1}}"#,
            r#"{"type":"tool-call","toolName":"g","input":null}"#,
            FINISH,
        ],
        true,
        false,
    );
    assert_eq!((g.full_text.as_str(), g.thinking.as_str(), g.tool_calls.len()), ("ab", "r", 2));
    assert_eq!(
        json_string(&g.tool_calls[0]),
        r#"{"id":"c1","type":"function","function":{"name":"f","arguments":"{\"x\":1}"}}"#
    );
    assert!(g.tool_calls[1].get_str("id").unwrap().starts_with("call_"));
    let (r, whole) = chat::reply(&g, "m", "chatcmpl-1", 5);
    assert!(whole);
    assert_eq!(r.status, 200);
    let j = parsed(&r.body);
    assert_eq!(j.get_str("object"), Some("chat.completion"));
    let choice = j.items("choices").at(0).clone();
    assert_eq!(choice.get_str("finish_reason"), Some("stop"));
    assert_eq!(choice.get2("message", "reasoning_content").and_then(|t| t.as_str()), Some("r"));
    assert_eq!(choice.get2("message", "content").and_then(|t| t.as_str()), Some("ab"));
    assert_eq!(j.get2("usage", "total_tokens").and_then(|t| t.as_u64()), Some(13));

    let (r, whole) = messages::reply(&g, "m");
    assert!(whole && r.status == 200);
    assert_eq!(parsed(&r.body).items("content").len(), 4);
    let (r, whole) = messages::reply_with(&g, "m", ID);
    assert!(whole && parsed(&r.body).get_str("id") == Some("msg_0123456789ab"));

    let echo = parsed(r#"{"instructions":"i"}"#);
    let (r, whole) = responses::reply(&g, "resp_1", "m", 5, &echo);
    assert!(whole && r.status == 200);
    let j = parsed(&r.body);
    assert_eq!(j.get_str("instructions"), Some("i"));
    assert_eq!(j.items("output").len(), 4);
}

#[test]
fn answers_that_failed_are_told() {
    let cut = gathered(&[&text("a")], true, true);
    let none = gathered(&[r#"{"type":"finish"}"#], true, true);
    let bad = gathered(&[&text("a"), r#"{"type":"error","error":{"message":"<402> x"}}"#, FINISH], true, true);
    let zero = gathered(&[&text("a"), r#"{"type":"finish","totalUsage":{"outputTokens":0}}"#], true, true);
    for (g, status, wait) in [(&cut, 502, "10"), (&none, 429, "10"), (&bad, 429, "30"), (&zero, 429, "10")] {
        let replies = [
            chat::reply(g, "m", "id", 1),
            messages::reply(g, "m"),
            responses::reply(g, "r", "m", 1, &parsed("{}")),
        ];
        for (r, whole) in replies {
            assert!(!whole);
            assert_eq!(r.status, status);
            assert_eq!(r.headers[1], ("retry-after", wait.to_string()));
        }
    }
}

#[test]
fn content_counts_where_no_output_is_reported() {
    for usage in ["", r#","totalUsage":{}"#, r#","totalUsage":{"outputTokens":null}"#] {
        let finish = format!("{{\"type\":\"finish\"{}}}", usage);
        let g = gathered(&[&text("a"), &finish], true, true);
        assert_eq!(messages::reply(&g, "m").0.status, 200);
        assert_eq!(responses::reply(&g, "r", "m", 1, &parsed("{}")).0.status, 200);
    }
}

#[test]
fn the_usage_of_a_step_counts_where_asked_for() {
    let lines = [text("a"), r#"{"type":"finish-step","usage":{"outputTokens":3}}"#.to_string()];
    let lines: Vec<&str> = lines.iter().map(|s| s.as_str()).collect();
    assert!(gathered(&lines, true, false).usage.is_none());
    assert!(gathered(&lines, true, true).usage.is_some());
    // a comment is no event where comments are known; else it is no JSON, and no event either
    assert_eq!(gathered(&[": x", &text("a")], false, true).full_text, "a");
}

#[test]
fn cuts_make_no_difference_to_an_answer() {
    let a = text("on\u{e9}");
    let all = bytes(&[&a, r#"{"type":"tool-call","toolCallId":"c","toolName":"f"}"#, FINISH]);
    for size in [1, 2, 5, 33] {
        let mut g = Gather::new(true, true);
        for c in all.chunks(size) {
            g.on_chunk(c);
        }
        g.on_end();
        assert_eq!(g.full_text, "on\u{e9}");
        assert_eq!(g.tool_calls.len(), 1);
        assert!(g.saw_finish);
    }
}
